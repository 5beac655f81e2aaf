//! The OBS side of the connections: the mirror of what OBS announced, the follower that keeps it
//! and fires hook macros on change, and the verbs that macros drive OBS with.

use vstd::prelude::*;

use crate::text::same_text;

verus! {

// ── the mirror ──────────────────────────────────────────────────────────────────────────────────

/// What OBS announced last. Nothing here is assumed.
#[derive(Debug, PartialEq)]
pub struct ObsSnapshot {
    pub connected: bool,
    pub scene: String,
    pub streaming: bool,
    pub recording: bool,
}

/// What a snapshot holds.
pub struct ObsView {
    pub connected: bool,
    pub scene: Seq<char>,
    pub streaming: bool,
    pub recording: bool,
}

impl View for ObsSnapshot {
    type V = ObsView;

    open spec fn view(&self) -> ObsView {
        ObsView {
            connected: self.connected,
            scene: self.scene@,
            streaming: self.streaming,
            recording: self.recording,
        }
    }
}

/// The snapshot of a closed connection.
pub open spec fn obs_silent() -> ObsView {
    ObsView { connected: false, scene: Seq::empty(), streaming: false, recording: false }
}

impl Default for ObsSnapshot {
    fn default() -> (r: Self)
        ensures
            r@ == obs_silent(),
    {
        ObsSnapshot { connected: false, scene: String::new(), streaming: false, recording: false }
    }
}

impl Clone for ObsSnapshot {
    fn clone(&self) -> (r: Self)
        ensures
            r == *self,
    {
        ObsSnapshot {
            connected: self.connected,
            scene: self.scene.clone(),
            streaming: self.streaming,
            recording: self.recording,
        }
    }
}

/// A value on the bus.
pub enum SignalValue {
    Bool(bool),
    Text(String),
    /// Anything that the mirror has no use for.
    Other,
}

/// A change that the mirror takes in.
pub enum ObsChange {
    Connected(bool),
    Streaming(bool),
    Recording(bool),
    Scene(Seq<char>),
    /// Not for the mirror.
    Nothing,
}

/// The change that a signal announces.
pub open spec fn change_of(path: Seq<char>, value: SignalValue) -> ObsChange {
    match value {
        SignalValue::Bool(b) => if path == "obs.connected"@ {
            ObsChange::Connected(b)
        } else if path == "obs.streaming"@ {
            ObsChange::Streaming(b)
        } else if path == "obs.recording"@ {
            ObsChange::Recording(b)
        } else {
            ObsChange::Nothing
        },
        SignalValue::Text(s) => if path == "obs.scene"@ {
            ObsChange::Scene(s@)
        } else {
            ObsChange::Nothing
        },
        SignalValue::Other => ObsChange::Nothing,
    }
}

/// The mirror after a change.
pub open spec fn mirrored(m: ObsView, c: ObsChange) -> ObsView {
    match c {
        ObsChange::Connected(b) => ObsView { connected: b, ..m },
        ObsChange::Streaming(b) => ObsView { streaming: b, ..m },
        ObsChange::Recording(b) => ObsView { recording: b, ..m },
        ObsChange::Scene(s) => ObsView { scene: s, ..m },
        ObsChange::Nothing => m,
    }
}

// ── the follower ────────────────────────────────────────────────────────────────────────────────

/// A macro that is fired when what it watches changes.
#[derive(Clone, Copy, Debug, PartialEq, Eq, Structural)]
pub enum Hook {
    Stream,
    Record,
    Scene,
}

/// The name of the hook's macro.
pub open spec fn hook_name(h: Hook) -> Seq<char> {
    match h {
        Hook::Stream => "on_obs_stream"@,
        Hook::Record => "on_obs_record"@,
        Hook::Scene => "on_obs_scene"@,
    }
}

/// The name of the hook's macro.
pub fn hook_macro(h: Hook) -> (r: &'static str)
    ensures
        r@ == hook_name(h),
{
    match h {
        Hook::Stream => "on_obs_stream",
        Hook::Record => "on_obs_record",
        Hook::Scene => "on_obs_scene",
    }
}

/// The follower: the mirror, what each hook saw last, and whether it is subscribed.
pub struct ObsFollower {
    pub mirror: ObsSnapshot,
    pub prev_stream: Option<bool>,
    pub prev_record: Option<bool>,
    pub prev_scene: Option<String>,
    /// Whether it holds a subscription.
    pub subscribed: bool,
    /// Whether the last subscription died, so that OBS has to announce itself anew.
    pub reborn: bool,
}

/// The hook that a change fires: only one that differs from what was last seen. The first
/// announcement only seeds.
pub open spec fn fired(f: ObsFollower, c: ObsChange) -> Option<Hook> {
    match c {
        ObsChange::Streaming(b) => if f.prev_stream is Some && f.prev_stream->0 != b {
            Some(Hook::Stream)
        } else {
            None
        },
        ObsChange::Recording(b) => if f.prev_record is Some && f.prev_record->0 != b {
            Some(Hook::Record)
        } else {
            None
        },
        ObsChange::Scene(s) => if f.prev_scene is Some && (f.prev_scene->0)@ != s {
            Some(Hook::Scene)
        } else {
            None
        },
        _ => None,
    }
}

/// What the stream hook has seen last, after a change.
pub open spec fn stream_seen(f: ObsFollower, c: ObsChange) -> Option<bool> {
    match c {
        ObsChange::Streaming(b) => Some(b),
        _ => f.prev_stream,
    }
}

/// What the recording hook has seen last, after a change.
pub open spec fn record_seen(f: ObsFollower, c: ObsChange) -> Option<bool> {
    match c {
        ObsChange::Recording(b) => Some(b),
        _ => f.prev_record,
    }
}

/// A scene that a hook has seen, as a text.
pub open spec fn scene_text(s: Option<String>) -> Option<Seq<char>> {
    match s {
        Some(t) => Some(t@),
        None => None,
    }
}

/// What the scene hook has seen last, after a change.
pub open spec fn scene_seen(f: ObsFollower, c: ObsChange) -> Option<Seq<char>> {
    match c {
        ObsChange::Scene(s) => Some(s),
        _ => scene_text(f.prev_scene),
    }
}

/// Whether a value changed from what was last seen; it is remembered either way.
pub fn hook_on_change(prev: &mut Option<bool>, now: bool) -> (changed: bool)
    ensures
        changed == (*old(prev) is Some && (*old(prev))->0 != now),
        *final(prev) == Some(now),
{
    let changed = match *prev {
        Some(p) => p != now,
        None => false,
    };
    *prev = Some(now);
    changed
}

/// Whether a text changed from what was last seen; it is remembered either way.
pub fn hook_on_text_change(prev: &mut Option<String>, now: String) -> (changed: bool)
    ensures
        changed == (*old(prev) is Some && ((*old(prev))->0)@ != now@),
        *final(prev) == Some(now),
{
    let changed = match prev {
        Some(p) => !same_text(p.as_str(), now.as_str()),
        None => false,
    };
    *prev = Some(now);
    changed
}

impl ObsFollower {
    /// A follower that has seen nothing; `subscribed` says whether its first subscription came.
    pub fn new(subscribed: bool) -> (r: Self)
        ensures
            r.mirror@ == obs_silent(),
            r.prev_stream is None,
            r.prev_record is None,
            r.prev_scene is None,
            r.subscribed == subscribed,
            !r.reborn,
    {
        ObsFollower {
            mirror: ObsSnapshot {
                connected: false,
                scene: String::new(),
                streaming: false,
                recording: false,
            },
            prev_stream: None,
            prev_record: None,
            prev_scene: None,
            subscribed,
            reborn: false,
        }
    }

    /// Takes a signal in: the mirror first, then the hook that it fires.
    pub fn signal(&mut self, path: &str, value: SignalValue) -> (r: Option<Hook>)
        ensures
            final(self).mirror@ == mirrored(old(self).mirror@, change_of(path@, value)),
            r == fired(*old(self), change_of(path@, value)),
            final(self).prev_stream == stream_seen(*old(self), change_of(path@, value)),
            final(self).prev_record == record_seen(*old(self), change_of(path@, value)),
            scene_text(final(self).prev_scene) == scene_seen(*old(self), change_of(path@, value)),
            final(self).subscribed == old(self).subscribed,
            final(self).reborn == old(self).reborn,
    {
        match value {
            SignalValue::Bool(b) => {
                if same_text(path, "obs.connected") {
                    self.mirror.connected = b;
                    None
                } else if same_text(path, "obs.streaming") {
                    self.mirror.streaming = b;
                    if hook_on_change(&mut self.prev_stream, b) {
                        Some(Hook::Stream)
                    } else {
                        None
                    }
                } else if same_text(path, "obs.recording") {
                    self.mirror.recording = b;
                    if hook_on_change(&mut self.prev_record, b) {
                        Some(Hook::Record)
                    } else {
                        None
                    }
                } else {
                    None
                }
            },
            SignalValue::Text(s) => {
                if same_text(path, "obs.scene") {
                    self.mirror.scene = s.clone();
                    if hook_on_text_change(&mut self.prev_scene, s) {
                        Some(Hook::Scene)
                    } else {
                        None
                    }
                } else {
                    None
                }
            },
            SignalValue::Other => None,
        }
    }

    /// The subscription died with the kernel that held it.
    pub fn disconnected(&mut self)
        ensures
            *final(self) == (ObsFollower { subscribed: false, reborn: true, ..*old(self) }),
    {
        self.subscribed = false;
        self.reborn = true;
    }

    /// Another attempt to subscribe was made; whether OBS must be asked to announce itself anew. A
    /// new bus starts empty, so what we remember is not to be trusted.
    pub fn resubscribed(&mut self, got: bool) -> (resync: bool)
        ensures
            resync == (got && old(self).reborn),
            *final(self) == (ObsFollower {
                subscribed: got,
                reborn: old(self).reborn && !got,
                ..*old(self)
            }),
    {
        self.subscribed = got;
        if got && self.reborn {
            self.reborn = false;
            true
        } else {
            false
        }
    }

    /// The follower ends: nothing may serve what it knew.
    pub fn stop(&mut self)
        ensures
            final(self).mirror@ == obs_silent(),
            *final(self) == (ObsFollower { mirror: final(self).mirror, ..*old(self) }),
    {
        self.mirror = ObsSnapshot {
            connected: false,
            scene: String::new(),
            streaming: false,
            recording: false,
        };
    }
}

/// What OBS announced last.
pub fn obs_snapshot(mirror: &ObsSnapshot) -> (r: ObsSnapshot)
    ensures
        r == *mirror,
{
    mirror.clone()
}

// ── the verbs ───────────────────────────────────────────────────────────────────────────────────

/// A command for OBS.
pub enum ObsCmd {
    SetScene(String),
    StartStream,
    StopStream,
    ToggleStream,
    StartRecord,
    StopRecord,
    ToggleRecord,
    ToggleMute(String),
    /// Any request of the websocket protocol.
    Raw { request_type: String, data: String },
    /// Announce everything anew.
    Resync,
}

/// A command, with its texts as sequences.
pub enum CmdView {
    SetScene(Seq<char>),
    StartStream,
    StopStream,
    ToggleStream,
    StartRecord,
    StopRecord,
    ToggleRecord,
    ToggleMute(Seq<char>),
    Raw { request_type: Seq<char>, data: Seq<char> },
    Resync,
}

impl View for ObsCmd {
    type V = CmdView;

    open spec fn view(&self) -> CmdView {
        match self {
            ObsCmd::SetScene(s) => CmdView::SetScene(s@),
            ObsCmd::StartStream => CmdView::StartStream,
            ObsCmd::StopStream => CmdView::StopStream,
            ObsCmd::ToggleStream => CmdView::ToggleStream,
            ObsCmd::StartRecord => CmdView::StartRecord,
            ObsCmd::StopRecord => CmdView::StopRecord,
            ObsCmd::ToggleRecord => CmdView::ToggleRecord,
            ObsCmd::ToggleMute(s) => CmdView::ToggleMute(s@),
            ObsCmd::Raw { request_type, data } => CmdView::Raw {
                request_type: request_type@,
                data: data@,
            },
            ObsCmd::Resync => CmdView::Resync,
        }
    }
}

/// The argument of a verb: the text that it is, or the "type" text and "data" source of the object
/// that it is.
pub struct ObsArg {
    pub text: Option<String>,
    pub kind: Option<String>,
    pub data: Option<String>,
}

/// What a verb answers, and the command to send, if any.
pub struct ObsReply {
    pub ok: bool,
    pub message: String,
    pub command: Option<ObsCmd>,
}

/// What a verb answers, with its texts as sequences.
pub struct ReplyView {
    pub ok: bool,
    pub message: Seq<char>,
    pub command: Option<CmdView>,
}

impl View for ObsReply {
    type V = ReplyView;

    open spec fn view(&self) -> ReplyView {
        ReplyView {
            ok: self.ok,
            message: self.message@,
            command: match self.command {
                Some(c) => Some(c@),
                None => None,
            },
        }
    }
}

/// The argument's text, or `other` where it is none.
pub open spec fn text_or(arg: ObsArg, other: Seq<char>) -> Seq<char> {
    match arg.text {
        Some(s) => s@,
        None => other,
    }
}

/// A reading that succeeded.
pub open spec fn reads(message: Seq<char>) -> ReplyView {
    ReplyView { ok: true, message, command: None }
}

/// A verb that failed.
pub open spec fn fails(message: Seq<char>) -> ReplyView {
    ReplyView { ok: false, message, command: None }
}

/// A truth value in words.
pub open spec fn truth(b: bool) -> Seq<char> {
    if b {
        "true"@
    } else {
        "false"@
    }
}

/// The answer to a probe: from the mirror, and only where OBS is connected.
pub open spec fn probed(m: ObsView, probe: Seq<char>) -> ReplyView {
    if probe == "connected"@ {
        reads(truth(m.connected))
    } else if !m.connected {
        fails("OBS not connected"@)
    } else if probe == "scene"@ {
        reads(m.scene)
    } else if probe == "streaming"@ {
        reads(truth(m.streaming))
    } else if probe == "recording"@ {
        reads(truth(m.recording))
    } else {
        fails(
            "obs_get: unknown probe '"@ + probe + "' (scene|streaming|recording|connected)"@,
        )
    }
}

/// A request of the websocket protocol that carries no data.
pub open spec fn bare(request_type: Seq<char>) -> CmdView {
    CmdView::Raw { request_type, data: Seq::empty() }
}

/// The command that a verb means, and what it says; or why it means none.
pub open spec fn commanded(verb: Seq<char>, arg: ObsArg) -> Result<(CmdView, Seq<char>), Seq<char>> {
    let a = text_or(arg, "toggle"@);
    if verb == "obs_scene"@ {
        match arg.text {
            Some(name) => if name@.len() > 0 {
                Ok((CmdView::SetScene(name@), "obs scene → "@ + name@))
            } else {
                Err("obs_scene(name): name must be a non-empty string"@)
            },
            None => Err("obs_scene(name): name must be a non-empty string"@),
        }
    } else if verb == "obs_stream"@ {
        if a == "start"@ {
            Ok((CmdView::StartStream, "obs stream → start"@))
        } else if a == "stop"@ {
            Ok((CmdView::StopStream, "obs stream → stop"@))
        } else {
            Ok((CmdView::ToggleStream, "obs stream → toggle"@))
        }
    } else if verb == "obs_record"@ {
        if a == "start"@ {
            Ok((CmdView::StartRecord, "obs record → start"@))
        } else if a == "stop"@ {
            Ok((CmdView::StopRecord, "obs record → stop"@))
        } else if a == "pause"@ || a == "resume"@ {
            Ok((bare("ToggleRecordPause"@), "obs record → pause/resume"@))
        } else {
            Ok((CmdView::ToggleRecord, "obs record → toggle"@))
        }
    } else if verb == "obs_replay"@ {
        if a == "start"@ {
            Ok((bare("StartReplayBuffer"@), "obs replay → start"@))
        } else if a == "stop"@ {
            Ok((bare("StopReplayBuffer"@), "obs replay → stop"@))
        } else {
            Ok((bare("SaveReplayBuffer"@), "obs replay → save clip"@))
        }
    } else if verb == "obs_mute"@ {
        let name = text_or(arg, "Mic/Aux"@);
        Ok((CmdView::ToggleMute(name), "obs mute → "@ + name))
    } else if verb == "obs_request"@ {
        let (kind, data) = match (arg.text, arg.kind) {
            (Some(t), _) => (t@, Seq::<char>::empty()),
            (None, Some(t)) => (
                t@,
                match arg.data {
                    Some(d) => d@,
                    None => Seq::<char>::empty(),
                },
            ),
            (None, None) => (Seq::<char>::empty(), Seq::<char>::empty()),
        };
        if kind.len() == 0 {
            Err("obs_request: pass \"RequestType\" or {\"type\": ..., \"data\": {...}}"@)
        } else {
            Ok((CmdView::Raw { request_type: kind, data }, "obs request → "@ + kind))
        }
    } else {
        Err("unknown obs verb '"@ + verb + "'"@)
    }
}

/// What a verb answers: a reading comes from the mirror; a command is sent only where OBS announced
/// that it is connected.
pub open spec fn answered(m: ObsView, verb: Seq<char>, arg: ObsArg) -> ReplyView {
    if verb == "obs_get"@ {
        probed(m, text_or(arg, "scene"@))
    } else {
        match commanded(verb, arg) {
            Err(message) => fails(message),
            Ok((command, message)) => if m.connected {
                ReplyView { ok: true, message, command: Some(command) }
            } else {
                fails("OBS not connected (open SYSTEM → CONNECTIONS)"@)
            },
        }
    }
}

fn arg_text(arg: &ObsArg, other: &str) -> (r: String)
    ensures
        r@ == text_or(*arg, other@),
{
    match &arg.text {
        Some(s) => s.clone(),
        None => other.to_owned(),
    }
}

fn said(message: &str) -> (r: ObsReply)
    ensures
        r@ == reads(message@),
{
    ObsReply { ok: true, message: message.to_owned(), command: None }
}

fn failed(message: &str) -> (r: ObsReply)
    ensures
        r@ == fails(message@),
{
    ObsReply { ok: false, message: message.to_owned(), command: None }
}

fn truth_text(b: bool) -> (r: &'static str)
    ensures
        r@ == truth(b),
{
    if b {
        "true"
    } else {
        "false"
    }
}

fn obs_probe(m: &ObsSnapshot, probe: &str) -> (r: ObsReply)
    ensures
        r@ == probed(m@, probe@),
{
    if same_text(probe, "connected") {
        return said(truth_text(m.connected));
    }
    if !m.connected {
        return failed("OBS not connected");
    }
    if same_text(probe, "scene") {
        said(m.scene.as_str())
    } else if same_text(probe, "streaming") {
        said(truth_text(m.streaming))
    } else if same_text(probe, "recording") {
        said(truth_text(m.recording))
    } else {
        let mut s = "obs_get: unknown probe '".to_owned();
        s.append(probe);
        s.append("' (scene|streaming|recording|connected)");
        failed(s.as_str())
    }
}

fn raw(request_type: &str) -> (r: ObsCmd)
    ensures
        r@ == bare(request_type@),
{
    ObsCmd::Raw { request_type: request_type.to_owned(), data: String::new() }
}

fn sentence(head: &str, tail: &str) -> (r: String)
    ensures
        r@ == head@ + tail@,
{
    let mut s = head.to_owned();
    s.append(tail);
    s
}

fn obs_command(verb: &str, arg: &ObsArg) -> (r: Result<(ObsCmd, String), String>)
    ensures
        match r {
            Ok((c, m)) => commanded(verb@, *arg) == Ok::<(CmdView, Seq<char>), Seq<char>>((c@, m@)),
            Err(m) => commanded(verb@, *arg) == Err::<(CmdView, Seq<char>), Seq<char>>(m@),
        },
{
    let a = arg_text(arg, "toggle");
    if same_text(verb, "obs_scene") {
        match &arg.text {
            Some(name) => {
                if !name.as_str().is_empty() {
                    Ok((ObsCmd::SetScene(name.clone()), sentence("obs scene → ", name.as_str())))
                } else {
                    Err("obs_scene(name): name must be a non-empty string".to_owned())
                }
            },
            None => Err("obs_scene(name): name must be a non-empty string".to_owned()),
        }
    } else if same_text(verb, "obs_stream") {
        if same_text(a.as_str(), "start") {
            Ok((ObsCmd::StartStream, "obs stream → start".to_owned()))
        } else if same_text(a.as_str(), "stop") {
            Ok((ObsCmd::StopStream, "obs stream → stop".to_owned()))
        } else {
            Ok((ObsCmd::ToggleStream, "obs stream → toggle".to_owned()))
        }
    } else if same_text(verb, "obs_record") {
        if same_text(a.as_str(), "start") {
            Ok((ObsCmd::StartRecord, "obs record → start".to_owned()))
        } else if same_text(a.as_str(), "stop") {
            Ok((ObsCmd::StopRecord, "obs record → stop".to_owned()))
        } else if same_text(a.as_str(), "pause") || same_text(a.as_str(), "resume") {
            Ok((raw("ToggleRecordPause"), "obs record → pause/resume".to_owned()))
        } else {
            Ok((ObsCmd::ToggleRecord, "obs record → toggle".to_owned()))
        }
    } else if same_text(verb, "obs_replay") {
        if same_text(a.as_str(), "start") {
            Ok((raw("StartReplayBuffer"), "obs replay → start".to_owned()))
        } else if same_text(a.as_str(), "stop") {
            Ok((raw("StopReplayBuffer"), "obs replay → stop".to_owned()))
        } else {
            Ok((raw("SaveReplayBuffer"), "obs replay → save clip".to_owned()))
        }
    } else if same_text(verb, "obs_mute") {
        let name = arg_text(arg, "Mic/Aux");
        let message = sentence("obs mute → ", name.as_str());
        Ok((ObsCmd::ToggleMute(name), message))
    } else if same_text(verb, "obs_request") {
        let (kind, data) = match (&arg.text, &arg.kind) {
            (Some(t), _) => (t.clone(), String::new()),
            (None, Some(t)) => (
                t.clone(),
                match &arg.data {
                    Some(d) => d.clone(),
                    None => String::new(),
                },
            ),
            (None, None) => (String::new(), String::new()),
        };
        if kind.as_str().is_empty() {
            Err(
                "obs_request: pass \"RequestType\" or {\"type\": ..., \"data\": {...}}".to_owned(),
            )
        } else {
            let message = sentence("obs request → ", kind.as_str());
            Ok((ObsCmd::Raw { request_type: kind, data }, message))
        }
    } else {
        let mut s = "unknown obs verb '".to_owned();
        s.append(verb);
        s.append("'");
        Err(s)
    }
}

/// What a verb answers, given what OBS announced last, and the command to send, if any.
pub fn obs_verb(m: &ObsSnapshot, verb: &str, arg: &ObsArg) -> (r: ObsReply)
    ensures
        r@ == answered(m@, verb@, *arg),
{
    if same_text(verb, "obs_get") {
        let probe = arg_text(arg, "scene");
        return obs_probe(m, probe.as_str());
    }
    match obs_command(verb, arg) {
        Err(message) => failed(message.as_str()),
        Ok((command, message)) => {
            if m.connected {
                ObsReply { ok: true, message, command: Some(command) }
            } else {
                failed("OBS not connected (open SYSTEM → CONNECTIONS)")
            }
        },
    }
}

// ── laws ────────────────────────────────────────────────────────────────────────────────────────

/// No command goes out unless OBS announced that it is connected, and every verb that sends one says
/// that it succeeded.
pub proof fn law_no_command_unless_connected(m: ObsView, verb: Seq<char>, arg: ObsArg)
    ensures
        answered(m, verb, arg).command is Some ==> m.connected && answered(m, verb, arg).ok,
        verb != "obs_get"@ ==> (answered(m, verb, arg).ok <==> answered(m, verb, arg).command
            is Some),
{
}

/// The first announcement of a value fires no hook, and an unchanged one never does.
pub proof fn law_hooks_fire_on_change_only(f: ObsFollower, b: bool)
    ensures
        f.prev_stream is None ==> fired(f, ObsChange::Streaming(b)) is None,
        f.prev_stream == Some(b) ==> fired(f, ObsChange::Streaming(b)) is None,
        f.prev_record is None ==> fired(f, ObsChange::Recording(b)) is None,
        f.prev_record == Some(b) ==> fired(f, ObsChange::Recording(b)) is None,
{
}

/// A signal that the mirror does not know leaves it as it was.
pub proof fn law_foreign_signal_leaves_mirror(m: ObsView, path: Seq<char>, value: SignalValue)
    requires
        path != "obs.connected"@,
        path != "obs.streaming"@,
        path != "obs.recording"@,
        path != "obs.scene"@,
    ensures
        mirrored(m, change_of(path, value)) == m,
{
}

} // verus!
