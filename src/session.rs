use vstd::prelude::*;
use vstd::string::StringExecFns;
use vstd::view::View as _;
use crate::command::{
    EditError, Error, GoalRequest, Notification, NotificationType, estimated_state_request,
    goal_request, parse_edit, reset_message, edit_value, reset_text, buffer_path,
};
use crate::info::{BufferLocationType, NUM_BUFFERS, SPModelInfo};
use crate::model::CompiledModel;
use crate::path::SPPath;
use crate::store::{StoreModel, merge_spec};
use crate::value::{SPValue, ValueModel};

verus! {

/// What the loaded session shows.
#[derive(Debug, Clone, Copy, PartialEq, Eq)]
pub enum View {
    OperationView,
    IntentionView,
    TPlanView,
    OPlanView,
    StateView,
    DemoGoalView,
}

/// The mode of the session.
pub enum SPOpViewerState {
    /// A model is being fetched.
    Loading,
    /// A model is loaded, and one of its views is shown.
    Loaded { model_info: SPModelInfo, current_view: View },
    /// The last fetch of a model failed; only a retry is offered.
    Errored,
}

/// The mode of a session, without the model.
pub enum Phase {
    Loading,
    Loaded(View),
    Errored,
}

/// What a request to set state was for; it decides what follows its
/// completion.
pub enum SetStatePurpose {
    /// A path was forced to a value; the text is shown when it succeeds.
    Reset(String),
    /// The pending edit of a path was submitted.
    Edit(SPPath),
    /// The estimated grid of buffers was sent.
    Estimated,
}

/// An event handed to the session: a user action, an inbound state update,
/// or the completion of a request.
pub enum Message {
    ChangeView(View),
    /// The outcome of the model fetch with the given number.
    ModelUpdate(u64, Result<CompiledModel, Error>),
    BufferButton(BufferLocationType, usize, bool),
    NewState(Vec<(SPPath, SPValue)>),
    StateValueEdit(SPPath, String),
    SubmitEdit(SPPath),
    CancelEdit(SPPath),
    UpdateModel,
    ResetOperation(SPPath, SPValue),
    SetEstimatedCylinders,
    SendGoalCylinders,
    /// A request to set state completed, successfully or not.
    StateSent(SetStatePurpose, bool),
    /// A request to extend the model completed, successfully or not.
    GoalSent(bool),
    SetNotification(String, NotificationType),
    /// The notification was closed.
    ClearNotification,
    /// The time of the notification with this number is up.
    NotificationExpired(u64),
    FilterChanged(String),
}

/// What the session asks its owner to do.
pub enum Command {
    Nothing,
    /// Fetch the model, and answer with `ModelUpdate` under this number.
    FetchModel(u64),
    /// Ask the system to set these values, and answer with `StateSent`.
    SetState(Vec<(SPPath, SPValue)>, SetStatePurpose),
    /// Ask the system to extend its model, and answer with `GoalSent`.
    SetModel(GoalRequest),
    /// Answer with `NotificationExpired` and this number after a few seconds.
    ClearNotificationLater(u64),
}

/// The number of the fetch after the one numbered `g`.
pub open spec fn next_generation(g: u64) -> u64 {
    if g == u64::MAX {
        0
    } else {
        (g + 1) as u64
    }
}

/// Batches of updates merged one after the other.
pub open spec fn merge_batches(m: StoreModel, bs: Seq<Vec<(SPPath, SPValue)>>) -> StoreModel
    decreases bs.len(),
{
    if bs.len() == 0 {
        m
    } else {
        merge_spec(merge_batches(m, bs.drop_last()), bs.last()@)
    }
}

/// The notification shown and its number stay as they were.
pub open spec fn keeps_notification(s: SPOpViewer, t: SPOpViewer) -> bool {
    &&& t.notification == s.notification
    &&& t.notification_seq == s.notification_seq
}

/// Where a model stays loaded, it stays the same model with the same
/// operations and intentions.
pub open spec fn keeps_model(s: SPOpViewer, t: SPOpViewer) -> bool {
    match (s.ui_state, t.ui_state) {
        (
            SPOpViewerState::Loaded { model_info: a, .. },
            SPOpViewerState::Loaded { model_info: b, .. },
        ) => {
            &&& b.compiled_model == a.compiled_model
            &&& b.operations == a.operations
            &&& b.intentions == a.intentions
        },
        _ => true,
    }
}

/// What handling one message does: `s` is the session before, `t` the
/// session after, and `r` the command handed back.
pub open spec fn update_post(s: SPOpViewer, msg: Message, t: SPOpViewer, r: Command) -> bool {
    &&& !(msg is UpdateModel) ==> t.generation == s.generation
    &&& !(msg is FilterChanged) ==> t.filter_string == s.filter_string
    &&& match msg {
        Message::ChangeView(v) => {
            &&& t.phase() == match s.phase() {
                Phase::Loaded(_) => Phase::Loaded(v),
                p => p,
            }
            &&& t.store() == s.store()
            &&& t.backlog == s.backlog
            &&& keeps_notification(s, t)
            &&& keeps_model(s, t)
            &&& t.grids() == s.grids()
            &&& r == Command::Nothing
        },
        Message::ModelUpdate(g, result) => {
            &&& (g == s.generation && s.phase() is Loading) ==> match result {
                Ok(m) => {
                    &&& t.phase() == Phase::Loaded(View::StateView)
                    &&& t.holds_model(m)
                    &&& t.store() == merge_batches(Map::empty(), s.backlog@)
                    &&& t.backlog@.len() == 0
                    &&& t.shows("Model loaded!"@, NotificationType::Happy)
                    &&& r == Command::ClearNotificationLater(t.notification_seq)
                },
                Err(_) => {
                    &&& t.phase() == Phase::Errored
                    &&& t.backlog == s.backlog
                    &&& t.shows("Could not get the model"@, NotificationType::Sad)
                    &&& r == Command::ClearNotificationLater(t.notification_seq)
                },
            }
            &&& !(g == s.generation && s.phase() is Loading) ==> {
                &&& t.ui_state == s.ui_state
                &&& t.backlog == s.backlog
                &&& keeps_notification(s, t)
                &&& r == Command::Nothing
            }
        },
        Message::BufferButton(kind, idx, value) => {
            &&& t.phase() == s.phase()
            &&& t.store() == s.store()
            &&& t.backlog == s.backlog
            &&& t.grids() == if !(s.phase() is Loaded) || idx >= NUM_BUFFERS {
                s.grids()
            } else if kind == BufferLocationType::Estimated {
                (s.grids().0.update(idx as int, crate::info::BufferLocation { value }), s.grids().1)
            } else {
                (s.grids().0, s.grids().1.update(idx as int, crate::info::BufferLocation { value }))
            }
            &&& keeps_notification(s, t)
            &&& keeps_model(s, t)
            &&& r == Command::Nothing
        },
        Message::NewState(u) => {
            &&& t.phase() == s.phase()
            &&& s.phase() is Loaded ==> {
                &&& t.store() == merge_spec(s.store(), u@)
                &&& t.backlog == s.backlog
            }
            &&& !(s.phase() is Loaded) ==> t.backlog@ == s.backlog@.push(u)
            &&& keeps_notification(s, t)
            &&& keeps_model(s, t)
            &&& t.grids() == s.grids()
            &&& r == Command::Nothing
        },
        Message::StateValueEdit(p, text) => {
            &&& t.phase() == s.phase()
            &&& t.store() == if s.store().contains_key(p@) {
                s.store().insert(p@, (s.store()[p@].0, text@))
            } else {
                s.store()
            }
            &&& t.backlog == s.backlog
            &&& keeps_notification(s, t)
            &&& keeps_model(s, t)
            &&& t.grids() == s.grids()
            &&& r == Command::Nothing
        },
        Message::CancelEdit(p) => {
            &&& t.phase() == s.phase()
            &&& t.store() == if s.store().contains_key(p@) {
                s.store().insert(p@, (s.store()[p@].0, Seq::empty()))
            } else {
                s.store()
            }
            &&& t.backlog == s.backlog
            &&& keeps_notification(s, t)
            &&& keeps_model(s, t)
            &&& t.grids() == s.grids()
            &&& r == Command::Nothing
        },
        Message::SubmitEdit(p) => {
            &&& t.phase() == s.phase()
            &&& t.store() == s.store()
            &&& t.backlog == s.backlog
            &&& keeps_model(s, t)
            &&& t.grids() == s.grids()
            &&& (r is SetState || r is Nothing) ==> keeps_notification(s, t)
            &&& (s.phase() is Loaded && s.store().contains_key(p@)) ==> match edit_value(
                s.store()[p@].0,
                s.store()[p@].1,
            ) {
                Some(v) => match r {
                    Command::SetState(updates, SetStatePurpose::Edit(q)) => {
                        &&& updates@.len() == 1
                        &&& updates@[0].0@ == p@
                        &&& updates@[0].1@ == v
                        &&& q@ == p@
                    },
                    _ => false,
                },
                None => {
                    &&& t.shows("The value cannot be read"@, NotificationType::Sad)
                    &&& r == Command::ClearNotificationLater(t.notification_seq)
                },
            }
            &&& (s.phase() is Loaded && !s.store().contains_key(p@)) ==> {
                &&& t.shows("No such path"@, NotificationType::Sad)
                &&& r == Command::ClearNotificationLater(t.notification_seq)
            }
            &&& !(s.phase() is Loaded) ==> r == Command::Nothing
        },
        Message::UpdateModel => {
            &&& t.phase() == Phase::Loading
            &&& t.generation == next_generation(s.generation)
            &&& t.backlog == s.backlog
            &&& keeps_notification(s, t)
            &&& r == Command::FetchModel(t.generation)
        },
        Message::ResetOperation(p, v) => {
            &&& t.ui_state == s.ui_state
            &&& t.backlog == s.backlog
            &&& keeps_notification(s, t)
            &&& match r {
                Command::SetState(updates, SetStatePurpose::Reset(text)) => {
                    &&& updates@.len() == 1
                    &&& updates@[0].0@ == p@
                    &&& updates@[0].1@ == v@
                    &&& text@ == reset_text(p@, v@)
                },
                _ => false,
            }
        },
        Message::SetEstimatedCylinders => {
            &&& t.ui_state == s.ui_state
            &&& t.backlog == s.backlog
            &&& keeps_notification(s, t)
            &&& s.phase() is Loaded ==> match r {
                Command::SetState(updates, SetStatePurpose::Estimated) => {
                    &&& updates@.len() == NUM_BUFFERS
                    &&& forall|i: int| 0 <= i < NUM_BUFFERS ==> (#[trigger] updates@[i]).0@
                        == buffer_path(i) && updates@[i].1@ == ValueModel::Bool(
                        s.grids().0[i].value,
                    )
                },
                _ => false,
            }
            &&& !(s.phase() is Loaded) ==> r == Command::Nothing
        },
        Message::SendGoalCylinders => {
            &&& t.ui_state == s.ui_state
            &&& t.backlog == s.backlog
            &&& keeps_notification(s, t)
            &&& s.phase() is Loaded ==> match r {
                Command::SetModel(goal) => {
                    &&& goal.model_name@ == "lab_scenario_1"@
                    &&& goal.intention_name@ == "test_intention"@
                    &&& goal.pre is TRUE
                    &&& goal.post is AND
                    &&& goal.post->AND_0@.len() == NUM_BUFFERS
                    &&& forall|i: int| 0 <= i < NUM_BUFFERS ==> crate::command::is_cell_goal(
                        #[trigger] goal.post->AND_0@[i],
                        i,
                        s.grids().1[i].value,
                    )
                },
                _ => false,
            }
            &&& !(s.phase() is Loaded) ==> r == Command::Nothing
        },
        Message::StateSent(purpose, ok) => {
            &&& t.phase() == s.phase()
            &&& t.backlog == s.backlog
            &&& keeps_model(s, t)
            &&& t.grids() == s.grids()
            &&& r == Command::ClearNotificationLater(t.notification_seq)
            &&& ok ==> match purpose {
                SetStatePurpose::Reset(text) => {
                    &&& t.store() == s.store()
                    &&& t.shows(text@, NotificationType::Happy)
                },
                SetStatePurpose::Edit(p) => {
                    &&& t.store() == if s.store().contains_key(p@) {
                        s.store().insert(p@, (s.store()[p@].0, Seq::empty()))
                    } else {
                        s.store()
                    }
                    &&& t.shows("Value submitted"@, NotificationType::Happy)
                },
                SetStatePurpose::Estimated => {
                    &&& t.store() == s.store()
                    &&& t.shows("Updated the state"@, NotificationType::Neutral)
                },
            }
            &&& !ok ==> {
                &&& t.store() == s.store()
                &&& t.shows("The state change request failed"@, NotificationType::Sad)
            }
        },
        Message::GoalSent(ok) => {
            &&& t.ui_state == s.ui_state
            &&& t.backlog == s.backlog
            &&& r == Command::ClearNotificationLater(t.notification_seq)
            &&& ok ==> t.shows("new intention: test_intention"@, NotificationType::Neutral)
            &&& !ok ==> t.shows("The goal could not be added"@, NotificationType::Sad)
        },
        Message::SetNotification(text, kind) => {
            &&& t.ui_state == s.ui_state
            &&& t.backlog == s.backlog
            &&& t.shows(text@, kind)
            &&& r == Command::ClearNotificationLater(t.notification_seq)
        },
        Message::ClearNotification => {
            &&& t.ui_state == s.ui_state
            &&& t.backlog == s.backlog
            &&& t.notification is None
            &&& r == Command::Nothing
        },
        Message::NotificationExpired(n) => {
            &&& t.ui_state == s.ui_state
            &&& t.backlog == s.backlog
            &&& t.notification == if n == s.notification_seq {
                None
            } else {
                s.notification
            }
            &&& r == Command::Nothing
        },
        Message::FilterChanged(text) => {
            &&& t.ui_state == s.ui_state
            &&& t.backlog == s.backlog
            &&& t.filter_string == text
            &&& keeps_notification(s, t)
            &&& r == Command::Nothing
        },
    }
}

/// The session: its mode, the notification shown, the filter of the state
/// table, the number of the latest model fetch, and the updates that came
/// while no model was loaded.
pub struct SPOpViewer {
    pub ui_state: SPOpViewerState,
    pub notification: Option<Notification>,
    pub filter_string: String,
    pub generation: u64,
    pub backlog: Vec<Vec<(SPPath, SPValue)>>,
    /// The number of the notification shown last; a later one replaces it,
    /// and only its own expiry clears it.
    pub notification_seq: u64,
}

impl SPOpViewer {
    pub open spec fn wf(&self) -> bool {
        match self.ui_state {
            SPOpViewerState::Loaded { model_info, .. } => {
                &&& model_info.state.wf()
                &&& model_info.estimated_locations@.len() == NUM_BUFFERS
                &&& model_info.buffers_locations@.len() == NUM_BUFFERS
            },
            _ => true,
        }
    }

    pub open spec fn phase(&self) -> Phase {
        match self.ui_state {
            SPOpViewerState::Loading => Phase::Loading,
            SPOpViewerState::Loaded { current_view, .. } => Phase::Loaded(current_view),
            SPOpViewerState::Errored => Phase::Errored,
        }
    }

    /// The store of the loaded model; empty where none is loaded.
    pub open spec fn store(&self) -> StoreModel {
        match self.ui_state {
            SPOpViewerState::Loaded { model_info, .. } => model_info.state@,
            _ => Map::empty(),
        }
    }

    /// Whether the loaded model is `m`.
    pub open spec fn holds_model(&self, m: CompiledModel) -> bool {
        match self.ui_state {
            SPOpViewerState::Loaded { model_info, .. } => model_info.compiled_model == m,
            _ => false,
        }
    }

    /// Whether a notification with this text and type is shown.
    pub open spec fn shows(&self, text: Seq<char>, t: NotificationType) -> bool {
        match self.notification {
            Some(n) => n.message@ == text && n.type_ == t,
            None => false,
        }
    }

    /// A new session: loading, with the first fetch numbered 0 under way.
    pub fn new() -> (r: (SPOpViewer, Command))
        ensures
            r.0.wf(),
            r.0.phase() == Phase::Loading,
            r.0.generation == 0,
            r.0.backlog@.len() == 0,
            r.0.notification is None,
            r.0.notification_seq == 0,
            r.0.filter_string@ == Seq::<char>::empty(),
            r.1 == Command::FetchModel(0),
    {
        let s = SPOpViewer {
            ui_state: SPOpViewerState::Loading,
            notification: None,
            filter_string: String::new(),
            generation: 0,
            backlog: Vec::new(),
            notification_seq: 0,
        };
        (s, Command::FetchModel(0))
    }

    /// The title of the window, which names the mode.
    pub fn title(&self) -> (r: String)
        ensures
            r@ == "SP Operation Viewer - "@ + match self.phase() {
                Phase::Loading => "Loading"@,
                Phase::Loaded(_) => "Model loaded"@,
                Phase::Errored => "Error"@,
            },
    {
        let subtitle = match &self.ui_state {
            SPOpViewerState::Loading => "Loading",
            SPOpViewerState::Loaded { .. } => "Model loaded",
            SPOpViewerState::Errored => "Error",
        };
        String::from_str("SP Operation Viewer - ").concat(subtitle)
    }

    fn notify(&mut self, text: String, t: NotificationType) -> (r: Command)
        ensures
            final(self).shows(text@, t),
            final(self).ui_state == old(self).ui_state,
            final(self).generation == old(self).generation,
            final(self).backlog == old(self).backlog,
            final(self).filter_string == old(self).filter_string,
            final(self).notification_seq == next_generation(old(self).notification_seq),
            r == Command::ClearNotificationLater(final(self).notification_seq),
    {
        self.notification = Some(Notification::new(text, t));
        self.notification_seq = if self.notification_seq == u64::MAX {
            0
        } else {
            self.notification_seq + 1
        };
        Command::ClearNotificationLater(self.notification_seq)
    }

    /// A model fetch completed. Only the answer to the latest fetch, while
    /// the session still waits for it, is taken; any other is dropped.
    fn model_update(&mut self, generation: u64, result: Result<CompiledModel, Error>) -> (r: Command)
        requires
            old(self).wf(),
        ensures
            final(self).wf(),
            final(self).generation == old(self).generation,
            final(self).filter_string == old(self).filter_string,
            (generation == old(self).generation && old(self).phase() is Loading) ==> match result {
                Ok(m) => {
                    &&& final(self).phase() == Phase::Loaded(View::StateView)
                    &&& final(self).holds_model(m)
                    &&& final(self).store() == merge_batches(Map::empty(), old(self).backlog@)
                    &&& final(self).backlog@.len() == 0
                    &&& final(self).shows("Model loaded!"@, NotificationType::Happy)
                    &&& r == Command::ClearNotificationLater(final(self).notification_seq)
                },
                Err(_) => {
                    &&& final(self).phase() == Phase::Errored
                    &&& final(self).backlog == old(self).backlog
                    &&& final(self).shows("Could not get the model"@, NotificationType::Sad)
                    &&& r == Command::ClearNotificationLater(final(self).notification_seq)
                },
            },
            !(generation == old(self).generation && old(self).phase() is Loading) ==> {
                &&& final(self).ui_state == old(self).ui_state
                &&& final(self).backlog == old(self).backlog
                &&& final(self).notification == old(self).notification
                &&& final(self).notification_seq == old(self).notification_seq
                &&& r == Command::Nothing
            },
    {
        let waiting = match self.ui_state {
            SPOpViewerState::Loading => true,
            _ => false,
        };
        if generation != self.generation || !waiting {
            return Command::Nothing;
        }
        match result {
            Ok(model) => {
                let ghost loaded = model;
                let mut model_info = SPModelInfo::from(model);
                let mut batches: Vec<Vec<(SPPath, SPValue)>> = Vec::new();
                core::mem::swap(&mut batches, &mut self.backlog);
                let ghost all = batches@;
                let ghost mut k: int = 0;
                assert(all.take(0) =~= Seq::<Vec<(SPPath, SPValue)>>::empty());
                while batches.len() > 0
                    invariant
                        model_info.state.wf(),
                        model_info.compiled_model == loaded,
                        model_info.estimated_locations@.len() == NUM_BUFFERS,
                        model_info.buffers_locations@.len() == NUM_BUFFERS,
                        0 <= k <= all.len(),
                        batches@ == all.skip(k),
                        model_info.state@ == merge_batches(Map::empty(), all.take(k)),
                        self.backlog@.len() == 0,
                    decreases batches@.len(),
                {
                    let b = batches.remove(0);
                    proof {
                        assert(all.take(k + 1).drop_last() =~= all.take(k));
                        assert(all.skip(k)[0] == all[k]);
                        assert(all.skip(k + 1) =~= all.skip(k).remove(0));
                    }
                    model_info.state.merge(b);
                    proof {
                        k = k + 1;
                    }
                }
                assert(all.take(k) =~= all);
                self.ui_state = SPOpViewerState::Loaded { model_info, current_view: View::StateView };
                proof {
                    reveal_strlit("Model loaded!");
                }
                self.notify(String::from_str("Model loaded!"), NotificationType::Happy)
            },
            Err(_) => {
                self.ui_state = SPOpViewerState::Errored;
                self.notify(String::from_str("Could not get the model"), NotificationType::Sad)
            },
        }
    }
    /// The two grids of buffers of the loaded model, estimated first; empty
    /// where no model is loaded.
    pub open spec fn grids(&self) -> (Seq<crate::info::BufferLocation>, Seq<crate::info::BufferLocation>) {
        match self.ui_state {
            SPOpViewerState::Loaded { model_info, .. } => (
                model_info.estimated_locations@,
                model_info.buffers_locations@,
            ),
            _ => (Seq::empty(), Seq::empty()),
        }
    }

    /// Handles one message and says what the owner of the session is to do
    /// next. Inbound updates are merged only while a model is loaded; before
    /// that they are kept, and merged into the store of the next model that
    /// loads.
    pub fn update(&mut self, msg: Message) -> (r: Command)
        requires
            old(self).wf(),
        ensures
            final(self).wf(),
            update_post(*old(self), msg, *final(self), r),
    {
        match msg {
            Message::ChangeView(v) => {
                match &mut self.ui_state {
                    SPOpViewerState::Loaded { model_info: _, current_view } => {
                        *current_view = v;
                    },
                    _ => {},
                }
                Command::Nothing
            },
            Message::ModelUpdate(g, result) => self.model_update(g, result),
            Message::BufferButton(t, idx, value) => {
                match &mut self.ui_state {
                    SPOpViewerState::Loaded { model_info, current_view: _ } => {
                        model_info.set_buffer(t, idx, value);
                    },
                    _ => {},
                }
                Command::Nothing
            },
            Message::NewState(u) => {
                match &mut self.ui_state {
                    SPOpViewerState::Loaded { model_info, current_view: _ } => {
                        model_info.state.merge(u);
                    },
                    _ => {
                        self.backlog.push(u);
                    },
                }
                Command::Nothing
            },
            Message::StateValueEdit(p, text) => {
                match &mut self.ui_state {
                    SPOpViewerState::Loaded { model_info, current_view: _ } => {
                        model_info.state.set_pending_edit(&p, text);
                    },
                    _ => {},
                }
                Command::Nothing
            },
            Message::CancelEdit(p) => {
                match &mut self.ui_state {
                    SPOpViewerState::Loaded { model_info, current_view: _ } => {
                        model_info.state.clear_pending_edit(&p);
                    },
                    _ => {},
                }
                Command::Nothing
            },
            Message::SubmitEdit(p) => {
                let parsed = match &self.ui_state {
                    SPOpViewerState::Loaded { model_info, current_view: _ } => {
                        match (model_info.state.get(&p), model_info.state.pending_edit(&p)) {
                            (Some(current), Some(text)) => Some(parse_edit(current, text.as_str())),
                            _ => Some(Err(EditError::UnknownPath)),
                        }
                    },
                    _ => None,
                };
                match parsed {
                    None => Command::Nothing,
                    Some(Ok(v)) => {
                        let q = p.clone();
                        let mut updates: Vec<(SPPath, SPValue)> = Vec::new();
                        updates.push((p, v));
                        Command::SetState(updates, SetStatePurpose::Edit(q))
                    },
                    Some(Err(EditError::UnknownPath)) => {
                        self.notify(String::from_str("No such path"), NotificationType::Sad)
                    },
                    Some(Err(_)) => self.notify(String::from_str("The value cannot be read"), NotificationType::Sad),
                }
            },
            Message::UpdateModel => {
                self.generation = if self.generation == u64::MAX {
                    0
                } else {
                    self.generation + 1
                };
                self.ui_state = SPOpViewerState::Loading;
                Command::FetchModel(self.generation)
            },
            Message::ResetOperation(p, v) => {
                let text = reset_message(&p, &v);
                let mut updates: Vec<(SPPath, SPValue)> = Vec::new();
                updates.push((p, v));
                Command::SetState(updates, SetStatePurpose::Reset(text))
            },
            Message::SetEstimatedCylinders => {
                match &self.ui_state {
                    SPOpViewerState::Loaded { model_info, current_view: _ } => {
                        let updates = estimated_state_request(&model_info.estimated_locations);
                        Command::SetState(updates, SetStatePurpose::Estimated)
                    },
                    _ => Command::Nothing,
                }
            },
            Message::SendGoalCylinders => {
                match &self.ui_state {
                    SPOpViewerState::Loaded { model_info, current_view: _ } => {
                        Command::SetModel(goal_request(&model_info.buffers_locations))
                    },
                    _ => Command::Nothing,
                }
            },
            Message::StateSent(purpose, ok) => {
                if !ok {
                    return self.notify(String::from_str("The state change request failed"), NotificationType::Sad);
                }
                match purpose {
                    SetStatePurpose::Reset(text) => self.notify(text, NotificationType::Happy),
                    SetStatePurpose::Edit(p) => {
                        match &mut self.ui_state {
                            SPOpViewerState::Loaded { model_info, current_view: _ } => {
                                model_info.state.clear_pending_edit(&p);
                            },
                            _ => {},
                        }
                        self.notify(String::from_str("Value submitted"), NotificationType::Happy)
                    },
                    SetStatePurpose::Estimated => {
                        self.notify(String::from_str("Updated the state"), NotificationType::Neutral)
                    },
                }
            },
            Message::GoalSent(ok) => {
                if ok {
                    self.notify(String::from_str("new intention: test_intention"), NotificationType::Neutral)
                } else {
                    self.notify(String::from_str("The goal could not be added"), NotificationType::Sad)
                }
            },
            Message::SetNotification(text, t) => self.notify(text, t),
            Message::NotificationExpired(n) => {
                if n == self.notification_seq {
                    self.notification = None;
                }
                Command::Nothing
            },
            Message::ClearNotification => {
                self.notification = None;
                Command::Nothing
            },
            Message::FilterChanged(text) => {
                self.filter_string = text;
                Command::Nothing
            },
        }
    }
}

/// A session that waits for the model gets it loaded, showing the state
/// table, when its latest fetch succeeds, and turns to the error mode when
/// that fetch fails; from the error mode a retry waits for a model again.
pub proof fn lemma_session_transitions(
    s: SPOpViewer,
    model: CompiledModel,
    error: Error,
    loaded: SPOpViewer,
    r1: Command,
    failed: SPOpViewer,
    r2: Command,
    retried: SPOpViewer,
    r3: Command,
)
    requires
        s.phase() is Loading,
        update_post(s, Message::ModelUpdate(s.generation, Ok(model)), loaded, r1),
        update_post(s, Message::ModelUpdate(s.generation, Err(error)), failed, r2),
        update_post(failed, Message::UpdateModel, retried, r3),
    ensures
        loaded.phase() == Phase::Loaded(View::StateView),
        failed.phase() is Errored,
        retried.phase() is Loading,
        r3 == Command::FetchModel(retried.generation),
{
}

/// When a second fetch starts before the first one is answered, the answer
/// to the first changes nothing: only the answer to the second decides.
pub proof fn lemma_stale_fetch_discarded(
    s0: SPOpViewer,
    s1: SPOpViewer,
    r1: Command,
    s2: SPOpViewer,
    r2: Command,
    first: Result<CompiledModel, Error>,
    s3: SPOpViewer,
    r3: Command,
    second: Result<CompiledModel, Error>,
    s4: SPOpViewer,
    r4: Command,
)
    requires
        update_post(s0, Message::UpdateModel, s1, r1),
        update_post(s1, Message::UpdateModel, s2, r2),
        update_post(s2, Message::ModelUpdate(s1.generation, first), s3, r3),
        update_post(s3, Message::ModelUpdate(s2.generation, second), s4, r4),
    ensures
        r1 == Command::FetchModel(s1.generation),
        r2 == Command::FetchModel(s2.generation),
        s3.ui_state == s2.ui_state,
        s3.notification == s2.notification,
        r3 == Command::Nothing,
        second is Ok ==> s4.phase() == Phase::Loaded(View::StateView),
        second is Err ==> s4.phase() is Errored,
{
}

} // verus!
