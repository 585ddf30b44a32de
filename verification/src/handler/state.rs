//! The application state that frontends see, and the rules on it.
//!
//! `validate_*` methods say whether a command is allowed; `apply_*` methods carry
//! a change out and move the revision.
use crate::ids::{hyphenated, is_random_uuid, new_uuid, uuid_text};
use crate::text::same_text;
use vstd::prelude::*;
use vstd::string::*;

verus! {

/// How many takes the history keeps. Older ones leave first; their files stay.
pub const MAX_TAKES: usize = 32;

/// The state. `revision` moves on every change.
#[derive(Debug, Clone)]
pub struct AppState {
    pub revision: u64,
    pub playback: Option<PlaybackSessionState>,
    pub recording: Option<RecordingSessionState>,
    pub selected_output_device: Option<String>,
    pub selected_input_device: Option<String>,
    pub takes: Vec<TakeMetadata>,
}

/// A playback session.
#[derive(Debug, Clone)]
pub struct PlaybackSessionState {
    pub session_id: String,
    /// The engine's own name for the session.
    pub engine_stream_id: String,
    pub source: PlaybackSource,
    pub started_at_unix_seconds: u64,
}

/// What a playback session plays.
#[derive(Debug, Clone)]
pub enum PlaybackSource {
    Take { take_id: String },
    File { path: String },
}

/// A recording session.
#[derive(Debug, Clone)]
pub struct RecordingSessionState {
    pub session_id: String,
    /// The engine's own name for the session.
    pub engine_stream_id: String,
    pub output_path: String,
    /// Is the right channel to be replaced by the left one in the end?
    pub mono_fold: bool,
    pub started_at_unix_seconds: u64,
}

/// A finished take.
#[derive(Debug, Clone)]
pub struct TakeMetadata {
    pub take_id: String,
    pub path: String,
    pub sample_rate: u32,
    pub channels: u16,
    /// Bit pattern of a double-precision float.
    pub duration_seconds: u64,
    /// Bit pattern of a single-precision float.
    pub peak_dbfs: u32,
    pub recorded_at_unix_seconds: u64,
    pub mono_folded: bool,
}

impl TakeMetadata {
    /// A copy.
    pub fn copied(&self) -> (r: TakeMetadata)
        ensures
            r == *self,
    {
        TakeMetadata {
            take_id: self.take_id.clone(),
            path: self.path.clone(),
            sample_rate: self.sample_rate,
            channels: self.channels,
            duration_seconds: self.duration_seconds,
            peak_dbfs: self.peak_dbfs,
            recorded_at_unix_seconds: self.recorded_at_unix_seconds,
            mono_folded: self.mono_folded,
        }
    }
}

/// Why a command is not allowed.
#[derive(Debug, Clone)]
pub enum ValidationError {
    AlreadyRecording { active_session: String },
    NotRecording,
    AlreadyPlaying { active_session: String },
    NotPlayable,
    NotResumable,
    NotSeekable,
    NoInputDeviceSelected,
    NoOutputDeviceSelected,
    UnknownTake { take_id: String },
    SessionNotFound { session_id: String },
}

impl ValidationError {
    /// The text of the error.
    pub open spec fn text(&self) -> Seq<char> {
        match self {
            ValidationError::AlreadyRecording { active_session } =>
                "a recording session is already active: "@ + active_session@,
            ValidationError::NotRecording => "no recording session is active"@,
            ValidationError::AlreadyPlaying { active_session } =>
                "a playback session is already active: "@ + active_session@,
            ValidationError::NotPlayable => "no playback session is active"@,
            ValidationError::NotResumable =>
                "playback is not paused (current state may be Playing or Stopped)"@,
            ValidationError::NotSeekable => "playback is not seekable in the current state"@,
            ValidationError::NoInputDeviceSelected =>
                "no input device selected and no override given"@,
            ValidationError::NoOutputDeviceSelected =>
                "no output device selected and no override given"@,
            ValidationError::UnknownTake { take_id } => "take not found: "@ + take_id@,
            ValidationError::SessionNotFound { session_id } => "session_not_found: "@ + session_id@,
        }
    }

    /// The text of the error.
    pub fn message(&self) -> (r: String)
        ensures
            r@ == self.text(),
    {
        match self {
            ValidationError::AlreadyRecording { active_session } =>
                "a recording session is already active: ".to_owned().concat(
                active_session.as_str(),
            ),
            ValidationError::NotRecording => "no recording session is active".to_owned(),
            ValidationError::AlreadyPlaying { active_session } =>
                "a playback session is already active: ".to_owned().concat(active_session.as_str()),
            ValidationError::NotPlayable => "no playback session is active".to_owned(),
            ValidationError::NotResumable =>
                "playback is not paused (current state may be Playing or Stopped)".to_owned(),
            ValidationError::NotSeekable => "playback is not seekable in the current state".to_owned(),
            ValidationError::NoInputDeviceSelected =>
                "no input device selected and no override given".to_owned(),
            ValidationError::NoOutputDeviceSelected =>
                "no output device selected and no override given".to_owned(),
            ValidationError::UnknownTake { take_id } => "take not found: ".to_owned().concat(
                take_id.as_str(),
            ),
            ValidationError::SessionNotFound { session_id } =>
                "session_not_found: ".to_owned().concat(session_id.as_str()),
        }
    }
}

/// Is `i` the first take with this identifier?
pub open spec fn first_take(takes: Seq<TakeMetadata>, take_id: Seq<char>, i: int) -> bool {
    &&& 0 <= i < takes.len()
    &&& takes[i].take_id@ == take_id
    &&& forall|k: int| 0 <= k < i ==> (#[trigger] takes[k]).take_id@ != take_id
}

/// Is there a take with this identifier?
pub open spec fn has_take(takes: Seq<TakeMetadata>, take_id: Seq<char>) -> bool {
    exists|i: int| 0 <= i < takes.len() && (#[trigger] takes[i]).take_id@ == take_id
}

/// The newest takes, at most as many as the history keeps.
pub open spec fn newest(takes: Seq<TakeMetadata>) -> Seq<TakeMetadata> {
    if takes.len() > MAX_TAKES {
        takes.skip(takes.len() - MAX_TAKES)
    } else {
        takes
    }
}

/// The index of the first take with this identifier.
fn take_index(takes: &Vec<TakeMetadata>, take_id: &str) -> (r: Option<usize>)
    ensures
        match r {
            Some(i) => first_take(takes@, take_id@, i as int),
            None => !has_take(takes@, take_id@),
        },
{
    let mut i: usize = 0;
    while i < takes.len()
        invariant
            i <= takes@.len(),
            forall|k: int| 0 <= k < i ==> (#[trigger] takes@[k]).take_id@ != take_id@,
        decreases takes@.len() - i,
    {
        if same_text(takes[i].take_id.as_str(), take_id) {
            return Some(i);
        }
        i += 1;
    }
    None
}

impl Default for AppState {
    fn default() -> (r: AppState)
        ensures
            r.revision == 0,
            r.playback is None,
            r.recording is None,
            r.selected_output_device is None,
            r.selected_input_device is None,
            r.takes@.len() == 0,
    {
        AppState {
            revision: 0,
            playback: None,
            recording: None,
            selected_output_device: None,
            selected_input_device: None,
            takes: Vec::new(),
        }
    }
}

impl AppState {
    fn bump(&mut self)
        ensures
            *final(self) == (AppState {
                revision: old(self).revision.wrapping_add(1),
                ..*old(self)
            }),
    {
        self.revision = self.revision.wrapping_add(1);
    }

    /// A recording may start where none is active.
    pub fn validate_record_start(&self) -> (r: Result<(), ValidationError>)
        ensures
            r is Ok <==> self.recording is None,
            r matches Err(e) ==> e == (ValidationError::AlreadyRecording {
                active_session: self.recording->Some_0.session_id,
            }),
    {
        if let Some(rec) = &self.recording {
            return Err(
                ValidationError::AlreadyRecording { active_session: rec.session_id.clone() },
            );
        }
        Ok(())
    }

    /// The active recording, where the given session, if one is given, is it.
    pub fn validate_record_stop(&self, session_id: Option<&str>) -> (r: Result<
        &RecordingSessionState,
        ValidationError,
    >)
        ensures
            match self.recording {
                None => r matches Err(e) && e == ValidationError::NotRecording,
                Some(rec) => if session_id matches Some(sid) && sid@ != rec.session_id@ {
                    r matches Err(ValidationError::SessionNotFound { session_id: s }) && s@
                        == session_id->Some_0@
                } else {
                    r matches Ok(x) && *x == rec
                },
            },
    {
        match &self.recording {
            None => Err(ValidationError::NotRecording),
            Some(rec) => {
                if let Some(sid) = session_id {
                    if !same_text(sid, rec.session_id.as_str()) {
                        return Err(ValidationError::SessionNotFound { session_id: sid.to_owned() });
                    }
                }
                Ok(rec)
            },
        }
    }

    /// A playback may start where none is active.
    pub fn validate_play_start(&self) -> (r: Result<(), ValidationError>)
        ensures
            r is Ok <==> self.playback is None,
            r matches Err(e) ==> e == (ValidationError::AlreadyPlaying {
                active_session: self.playback->Some_0.session_id,
            }),
    {
        if let Some(pb) = &self.playback {
            return Err(ValidationError::AlreadyPlaying { active_session: pb.session_id.clone() });
        }
        Ok(())
    }

    /// The active playback, where the given session, if one is given, is it.
    pub fn validate_play_active(&self, session_id: Option<&str>) -> (r: Result<
        &PlaybackSessionState,
        ValidationError,
    >)
        ensures
            match self.playback {
                None => r matches Err(e) && e == ValidationError::NotPlayable,
                Some(pb) => if session_id matches Some(sid) && sid@ != pb.session_id@ {
                    r matches Err(ValidationError::SessionNotFound { session_id: s }) && s@
                        == session_id->Some_0@
                } else {
                    r matches Ok(x) && *x == pb
                },
            },
    {
        match &self.playback {
            None => Err(ValidationError::NotPlayable),
            Some(pb) => {
                if let Some(sid) = session_id {
                    if !same_text(sid, pb.session_id.as_str()) {
                        return Err(ValidationError::SessionNotFound { session_id: sid.to_owned() });
                    }
                }
                Ok(pb)
            },
        }
    }

    /// The first take with this identifier.
    pub fn find_take(&self, take_id: &str) -> (r: Result<&TakeMetadata, ValidationError>)
        ensures
            match r {
                Ok(t) => exists|i: int|
                    first_take(self.takes@, take_id@, i) && #[trigger] self.takes@[i] == *t,
                Err(e) => !has_take(self.takes@, take_id@) && (
                e matches ValidationError::UnknownTake { take_id: t } && t@ == take_id@),
            },
    {
        match take_index(&self.takes, take_id) {
            Some(i) => Ok(&self.takes[i]),
            None => Err(ValidationError::UnknownTake { take_id: take_id.to_owned() }),
        }
    }

    /// The input device to use: the override, else the selected one.
    pub fn resolve_input_device(&self, override_id: Option<&str>) -> (r: Result<
        String,
        ValidationError,
    >)
        ensures
            match override_id {
                Some(id) => r matches Ok(s) && s@ == id@,
                None => match self.selected_input_device {
                    Some(id) => r matches Ok(s) && s == id,
                    None => r matches Err(e) && e == ValidationError::NoInputDeviceSelected,
                },
            },
    {
        if let Some(id) = override_id {
            return Ok(id.to_owned());
        }
        match &self.selected_input_device {
            Some(id) => Ok(id.clone()),
            None => Err(ValidationError::NoInputDeviceSelected),
        }
    }

    /// The output device to use: the override, else the selected one.
    pub fn resolve_output_device(&self, override_id: Option<&str>) -> (r: Result<
        String,
        ValidationError,
    >)
        ensures
            match override_id {
                Some(id) => r matches Ok(s) && s@ == id@,
                None => match self.selected_output_device {
                    Some(id) => r matches Ok(s) && s == id,
                    None => r matches Err(e) && e == ValidationError::NoOutputDeviceSelected,
                },
            },
    {
        if let Some(id) = override_id {
            return Ok(id.to_owned());
        }
        match &self.selected_output_device {
            Some(id) => Ok(id.clone()),
            None => Err(ValidationError::NoOutputDeviceSelected),
        }
    }

    /// A recording has started.
    pub fn apply_record_started(&mut self, session: RecordingSessionState)
        ensures
            *final(self) == (AppState {
                recording: Some(session),
                revision: old(self).revision.wrapping_add(1),
                ..*old(self)
            }),
    {
        self.recording = Some(session);
        self.bump();
    }

    /// The recording has stopped. A take that came of it joins the history, from
    /// which the oldest leave.
    pub fn apply_record_stopped(&mut self, take: Option<TakeMetadata>)
        ensures
            *final(self) == (AppState {
                recording: None,
                revision: old(self).revision.wrapping_add(1),
                takes: final(self).takes,
                ..*old(self)
            }),
            final(self).takes@ == match take {
                None => old(self).takes@,
                Some(t) => newest(old(self).takes@.push(t)),
            },
    {
        self.recording = None;
        if let Some(t) = take {
            self.takes.push(t);
            let ghost all = self.takes@;
            proof {
                assert(all.skip(0) =~= all);
            }
            while self.takes.len() > MAX_TAKES
                invariant
                    self.takes@.len() <= all.len(),
                    self.takes@ == all.skip(all.len() - self.takes@.len()),
                    all.len() >= MAX_TAKES ==> self.takes@.len() >= MAX_TAKES,
                    all.len() <= MAX_TAKES ==> self.takes@.len() == all.len(),
                    *self == (AppState { recording: None, takes: self.takes, ..*old(self) }),
                decreases self.takes@.len(),
            {
                let ghost before = self.takes@;
                let _ = self.takes.remove(0);
                proof {
                    assert(self.takes@ =~= before.skip(1));
                    assert(self.takes@ =~= all.skip(all.len() - self.takes@.len()));
                }
            }
            proof {
                if all.len() <= MAX_TAKES {
                    assert(self.takes@ =~= all);
                }
            }
        }
        self.bump();
    }

    /// A playback has started.
    pub fn apply_play_started(&mut self, session: PlaybackSessionState)
        ensures
            *final(self) == (AppState {
                playback: Some(session),
                revision: old(self).revision.wrapping_add(1),
                ..*old(self)
            }),
    {
        self.playback = Some(session);
        self.bump();
    }

    /// The playback has stopped.
    pub fn apply_play_stopped(&mut self)
        ensures
            *final(self) == (AppState {
                playback: None,
                revision: old(self).revision.wrapping_add(1),
                ..*old(self)
            }),
    {
        self.playback = None;
        self.bump();
    }

    /// An input device was selected, or the selection cleared.
    pub fn apply_select_input(&mut self, device_id: Option<String>)
        ensures
            *final(self) == (AppState {
                selected_input_device: device_id,
                revision: old(self).revision.wrapping_add(1),
                ..*old(self)
            }),
    {
        self.selected_input_device = device_id;
        self.bump();
    }

    /// An output device was selected, or the selection cleared.
    pub fn apply_select_output(&mut self, device_id: Option<String>)
        ensures
            *final(self) == (AppState {
                selected_output_device: device_id,
                revision: old(self).revision.wrapping_add(1),
                ..*old(self)
            }),
    {
        self.selected_output_device = device_id;
        self.bump();
    }

    /// Removes the first take with this identifier from the history and returns
    /// it. Where there is none, nothing changes, not even the revision.
    pub fn apply_delete_take(&mut self, take_id: &str) -> (r: Option<TakeMetadata>)
        ensures
            !has_take(old(self).takes@, take_id@) ==> r is None && *final(self) == *old(self),
            has_take(old(self).takes@, take_id@) ==> exists|i: int|
                first_take(old(self).takes@, take_id@, i) && r == Some(
                    #[trigger] old(self).takes@[i],
                ) && final(self).takes@ == old(self).takes@.remove(i),
            has_take(old(self).takes@, take_id@) ==> *final(self) == (AppState {
                revision: old(self).revision.wrapping_add(1),
                takes: final(self).takes,
                ..*old(self)
            }),
    {
        match take_index(&self.takes, take_id) {
            None => None,
            Some(i) => {
                proof {
                    assert(first_take(old(self).takes@, take_id@, i as int));
                }
                let take: TakeMetadata = self.takes.remove(i);
                self.bump();
                Some(take)
            },
        }
    }
}

/// A new session identifier: the text of a random UUID.
pub fn new_session_id() -> (r: String)
    ensures
        exists|id: u128| is_random_uuid(id) && r@ == #[trigger] hyphenated(id),
{
    let id: u128 = new_uuid();
    uuid_text(id)
}

/// Seconds since the Unix epoch, as the clock tells them; a clock before the epoch
/// (`None`) counts as the epoch.
pub fn now_unix_seconds(since_epoch: Option<u64>) -> (r: u64)
    ensures
        r == match since_epoch {
            Some(n) => n,
            None => 0,
        },
{
    match since_epoch {
        Some(n) => n,
        None => 0,
    }
}

/// The history never grows beyond its limit.
pub proof fn law_history_is_bounded(takes: Seq<TakeMetadata>, t: TakeMetadata)
    ensures
        newest(takes.push(t)).len() <= MAX_TAKES,
        newest(takes.push(t)).last() == t,
        takes.len() < MAX_TAKES ==> newest(takes.push(t)) == takes.push(t),
        takes.len() == MAX_TAKES ==> newest(takes.push(t)) == takes.skip(1).push(t),
{
    let all = takes.push(t);
    if takes.len() == MAX_TAKES {
        assert(newest(all) =~= takes.skip(1).push(t));
    }
}

/// A take that joins the history under a new identifier is the one found under it,
/// whichever older takes leave.
pub proof fn law_new_take_is_found(takes: Seq<TakeMetadata>, t: TakeMetadata)
    requires
        !has_take(takes, t.take_id@),
    ensures
        ({
            let after = newest(takes.push(t));
            &&& first_take(after, t.take_id@, after.len() - 1)
            &&& after.last() == t
        }),
{
    let all = takes.push(t);
    let after = newest(all);
    let left = all.len() - after.len();
    assert forall|k: int| 0 <= k < after.len() - 1 implies (#[trigger] after[k]).take_id@
        != t.take_id@ by {
        assert(after[k] == takes[k + left]);
    }
}

/// Deleting a take, where no two share an identifier, removes it and no other.
pub proof fn law_deleted_take_is_gone(takes: Seq<TakeMetadata>, take_id: Seq<char>, i: int)
    requires
        first_take(takes, take_id, i),
        forall|j: int, k: int|
            0 <= j < k < takes.len() ==> (#[trigger] takes[j]).take_id@ != (
            #[trigger] takes[k]).take_id@,
    ensures
        !has_take(takes.remove(i), take_id),
        forall|other: Seq<char>|
            other != take_id ==> has_take(takes.remove(i), other) == #[trigger] has_take(
                takes,
                other,
            ),
{
    let rest = takes.remove(i);
    assert forall|k: int| 0 <= k < rest.len() implies (#[trigger] rest[k]).take_id@
        != take_id by {
        assert(rest[k] == if k < i {
            takes[k]
        } else {
            takes[k + 1]
        });
    }
    assert forall|other: Seq<char>| other != take_id implies has_take(rest, other)
        == #[trigger] has_take(takes, other) by {
        if has_take(rest, other) {
            let k = choose|k: int| 0 <= k < rest.len() && (#[trigger] rest[k]).take_id@ == other;
            let from = if k < i {
                k
            } else {
                k + 1
            };
            assert(takes[from].take_id@ == other);
        }
        if has_take(takes, other) {
            let k = choose|k: int| 0 <= k < takes.len() && (#[trigger] takes[k]).take_id@ == other;
            let to = if k < i {
                k
            } else {
                k - 1
            };
            assert(rest[to] == takes[k]);
        }
    }
}

/// A changed state never has the revision it had before.
pub proof fn law_revision_moves(before: u64)
    ensures
        before.wrapping_add(1) != before,
        before < u64::MAX ==> before.wrapping_add(1) > before,
{
}

/// The history keeps the newest takes, in order: all of them up to 32, and of more the
/// last 32.
pub proof fn law_history_keeps_the_newest(takes: Seq<TakeMetadata>, i: int)
    ensures
        takes.len() <= 32 ==> newest(takes) == takes,
        takes.len() > 32 ==> newest(takes).len() == 32,
        takes.len() > 32 && 0 <= i < 32 ==> newest(takes)[i] == takes[takes.len() - 32 + i],
{
}

} // verus!
