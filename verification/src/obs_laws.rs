//! What the verbs of a macro send to OBS, what its probes read, and how the mirror follows.

use vstd::prelude::*;

use crate::obs::{
    answered, change_of, fired, hook_macro, hook_name, hook_on_change, hook_on_text_change,
    mirrored, obs_snapshot, obs_verb, probed, record_seen, scene_seen, scene_text, stream_seen,
    CmdView, Hook, ObsArg, ObsCmd, ObsFollower, ObsReply, ObsSnapshot, ObsView, SignalValue,
};

verus! {

/// The argument is a text that reads `s`.
pub open spec fn says(arg: ObsArg, s: Seq<char>) -> bool {
    arg.text matches Some(t) && t@ == s
}

proof fn lemma_words()
    ensures
        "start"@ != "stop"@,
        "start"@ != "pause"@,
        "start"@ != "resume"@,
        "start"@ != "toggle"@,
        "stop"@ != "pause"@,
        "stop"@ != "resume"@,
        "stop"@ != "toggle"@,
        "pause"@ != "toggle"@,
        "resume"@ != "toggle"@,
{
    reveal_strlit("start");
    reveal_strlit("stop");
    reveal_strlit("pause");
    reveal_strlit("resume");
    reveal_strlit("toggle");
    assert("start"@[0] != "pause"@[0]);
    assert("start"@.len() != "stop"@.len());
    assert("resume"@[0] != "toggle"@[0]);
    assert("start"@.len() != "resume"@.len());
    assert("start"@.len() != "toggle"@.len());
    assert("stop"@.len() != "pause"@.len());
    assert("stop"@.len() != "resume"@.len());
    assert("stop"@.len() != "toggle"@.len());
    assert("pause"@.len() != "toggle"@.len());
}

proof fn lemma_verbs()
    ensures
        "obs_get"@.len() == 7,
        "obs_scene"@.len() == 9,
        "obs_stream"@.len() == 10,
        "obs_record"@.len() == 10,
        "obs_replay"@.len() == 10,
        "obs_mute"@.len() == 8,
        "obs_request"@.len() == 11,
        "obs_stream"@[4] == 's',
        "obs_record"@[6] == 'c',
        "obs_replay"@[6] == 'p',
        "obs_record"@[4] == 'r',
        "obs_replay"@[4] == 'r',
{
    reveal_strlit("obs_get");
    reveal_strlit("obs_scene");
    reveal_strlit("obs_stream");
    reveal_strlit("obs_record");
    reveal_strlit("obs_replay");
    reveal_strlit("obs_mute");
    reveal_strlit("obs_request");
}

// ── commands ────────────────────────────────────────────────────────────────────────────────────

/// While OBS is connected, a stream is started by "start", stopped by "stop", and toggled by anything
/// else or by nothing; the answer names what was sent.
pub proof fn law_stream_verb(m: ObsView, arg: ObsArg)
    requires
        m.connected,
    ensures
        answered(m, "obs_stream"@, arg).ok,
        answered(m, "obs_stream"@, arg).command == Some(CmdView::StartStream) <==> says(arg, "start"@),
        answered(m, "obs_stream"@, arg).command == Some(CmdView::StopStream) <==> says(arg, "stop"@),
        answered(m, "obs_stream"@, arg).command == Some(CmdView::ToggleStream) <==> !says(
            arg,
            "start"@,
        ) && !says(arg, "stop"@),
        answered(m, "obs_stream"@, arg).message == (if says(arg, "start"@) {
            "obs stream → start"@
        } else if says(arg, "stop"@) {
            "obs stream → stop"@
        } else {
            "obs stream → toggle"@
        }),
{
    lemma_words();
    lemma_verbs();
}

/// While OBS is connected, a recording is started by "start", stopped by "stop", paused and resumed by
/// either word, and toggled by anything else or by nothing; the answer names what was sent.
pub proof fn law_record_verb(m: ObsView, arg: ObsArg)
    requires
        m.connected,
    ensures
        answered(m, "obs_record"@, arg).ok,
        answered(m, "obs_record"@, arg).command == Some(CmdView::StartRecord) <==> says(arg, "start"@),
        answered(m, "obs_record"@, arg).command == Some(CmdView::StopRecord) <==> says(arg, "stop"@),
        answered(m, "obs_record"@, arg).command == Some(
            CmdView::Raw { request_type: "ToggleRecordPause"@, data: Seq::empty() },
        ) <==> says(arg, "pause"@) || says(arg, "resume"@),
        answered(m, "obs_record"@, arg).command == Some(CmdView::ToggleRecord) <==> !says(
            arg,
            "start"@,
        ) && !says(arg, "stop"@) && !says(arg, "pause"@) && !says(arg, "resume"@),
        answered(m, "obs_record"@, arg).message == (if says(arg, "start"@) {
            "obs record → start"@
        } else if says(arg, "stop"@) {
            "obs record → stop"@
        } else if says(arg, "pause"@) || says(arg, "resume"@) {
            "obs record → pause/resume"@
        } else {
            "obs record → toggle"@
        }),
{
    lemma_words();
    lemma_verbs();
}

/// While OBS is connected, the replay buffer is started by "start", stopped by "stop", and saved to disk
/// by anything else or by nothing.
pub proof fn law_replay_verb(m: ObsView, arg: ObsArg)
    requires
        m.connected,
    ensures
        answered(m, "obs_replay"@, arg).ok,
        answered(m, "obs_replay"@, arg).command matches Some(c) && c == (CmdView::Raw {
            request_type: if says(arg, "start"@) {
                "StartReplayBuffer"@
            } else if says(arg, "stop"@) {
                "StopReplayBuffer"@
            } else {
                "SaveReplayBuffer"@
            },
            data: Seq::empty(),
        }),
        answered(m, "obs_replay"@, arg).message == (if says(arg, "start"@) {
            "obs replay → start"@
        } else if says(arg, "stop"@) {
            "obs replay → stop"@
        } else {
            "obs replay → save clip"@
        }),
{
    lemma_words();
    lemma_verbs();
}

/// While OBS is connected, a scene is set by its name, and a source is muted by its own; the microphone
/// where none is named.
pub proof fn law_scene_and_mute_verbs(m: ObsView, arg: ObsArg)
    requires
        m.connected,
    ensures
        arg.text matches Some(t) ==> (t@.len() > 0 ==> answered(m, "obs_scene"@, arg).command == Some(
            CmdView::SetScene(t@),
        ) && answered(m, "obs_scene"@, arg).message == "obs scene → "@ + t@),
        (arg.text is None || arg.text->0@.len() == 0) ==> !answered(m, "obs_scene"@, arg).ok && answered(
            m,
            "obs_scene"@,
            arg,
        ).command is None,
        arg.text matches Some(t) ==> answered(m, "obs_mute"@, arg).command == Some(
            CmdView::ToggleMute(t@),
        ),
        arg.text is None ==> answered(m, "obs_mute"@, arg).command == Some(
            CmdView::ToggleMute("Mic/Aux"@),
        ),
        answered(m, "obs_mute"@, arg).ok,
{
    lemma_verbs();
}

/// While OBS is connected, any request goes out as it was named: by the text alone, or by a type with
/// its data. One without a name is refused.
pub proof fn law_request_verb(m: ObsView, arg: ObsArg)
    requires
        m.connected,
    ensures
        arg.text matches Some(t) ==> (t@.len() > 0 ==> answered(m, "obs_request"@, arg).command == Some(
            CmdView::Raw { request_type: t@, data: Seq::empty() },
        )),
        arg.text is None ==> (arg.kind matches Some(k) ==> (k@.len() > 0 ==> answered(
            m,
            "obs_request"@,
            arg,
        ).command == Some(
            CmdView::Raw {
                request_type: k@,
                data: match arg.data {
                    Some(d) => d@,
                    None => Seq::empty(),
                },
            },
        ))),
        arg.text is None && arg.kind is None ==> !answered(m, "obs_request"@, arg).ok,
{
    lemma_verbs();
}

/// A verb that nobody knows, and every command while OBS is away, is answered with a failure and sends
/// nothing.
pub proof fn law_refused_verbs(m: ObsView, verb: Seq<char>, arg: ObsArg)
    ensures
        !m.connected && verb != "obs_get"@ ==> !answered(m, verb, arg).ok && answered(
            m,
            verb,
            arg,
        ).command is None,
        verb != "obs_get"@ && verb != "obs_scene"@ && verb != "obs_stream"@ && verb != "obs_record"@
            && verb != "obs_replay"@ && verb != "obs_mute"@ && verb != "obs_request"@ ==> answered(
            m,
            verb,
            arg,
        ).message == "unknown obs verb '"@ + verb + "'"@ && !answered(m, verb, arg).ok,
        !m.connected && verb == "obs_stream"@ ==> answered(m, verb, arg).message
            == "OBS not connected (open SYSTEM → CONNECTIONS)"@,
{
    lemma_verbs();
}

// ── probes ──────────────────────────────────────────────────────────────────────────────────────

proof fn lemma_probes()
    ensures
        "connected"@.len() == 9,
        "scene"@.len() == 5,
        "streaming"@[0] == 's',
        "recording"@[0] == 'r',
        "connected"@[0] == 'c',
        "streaming"@.len() == 9,
        "recording"@.len() == 9,
        "true"@.len() == 4,
        "false"@.len() == 5,
{
    reveal_strlit("connected");
    reveal_strlit("scene");
    reveal_strlit("streaming");
    reveal_strlit("recording");
    reveal_strlit("true");
    reveal_strlit("false");
}

/// A probe reads what the mirror holds and sends nothing: the scene by its name, the rest as true or
/// false. Away from OBS only the connection itself can be read.
pub proof fn law_probes_read_the_mirror(m: ObsView, arg: ObsArg)
    ensures
        answered(m, "obs_get"@, arg).command is None,
        says(arg, "connected"@) ==> answered(m, "obs_get"@, arg).ok && (answered(m, "obs_get"@, arg).message
            == "true"@ <==> m.connected) && (answered(m, "obs_get"@, arg).message == "false"@
            <==> !m.connected),
        m.connected && says(arg, "streaming"@) ==> answered(m, "obs_get"@, arg).ok && (answered(
            m,
            "obs_get"@,
            arg,
        ).message == "true"@ <==> m.streaming) && (answered(m, "obs_get"@, arg).message == "false"@
            <==> !m.streaming),
        m.connected && says(arg, "recording"@) ==> answered(m, "obs_get"@, arg).ok && (answered(
            m,
            "obs_get"@,
            arg,
        ).message == "true"@ <==> m.recording) && (answered(m, "obs_get"@, arg).message == "false"@
            <==> !m.recording),
        m.connected && (says(arg, "scene"@) || arg.text is None) ==> answered(m, "obs_get"@, arg).ok
            && answered(m, "obs_get"@, arg).message == m.scene,
        !m.connected && !says(arg, "connected"@) ==> !answered(m, "obs_get"@, arg).ok,
{
    lemma_probes();
    assert("true"@.len() != "false"@.len());
    if arg.text is None {
        assert("scene"@.len() != "connected"@.len());
        assert("scene"@.len() != "streaming"@.len());
    }
}

// ── the mirror ──────────────────────────────────────────────────────────────────────────────────

proof fn lemma_paths()
    ensures
        "obs.connected"@.len() == 13,
        "obs.streaming"@.len() == 13,
        "obs.recording"@.len() == 13,
        "obs.scene"@.len() == 9,
        "obs.connected"@[4] == 'c',
        "obs.streaming"@[4] == 's',
        "obs.recording"@[4] == 'r',
{
    reveal_strlit("obs.connected");
    reveal_strlit("obs.streaming");
    reveal_strlit("obs.recording");
    reveal_strlit("obs.scene");
}

/// What OBS announces is what the mirror shows of it afterwards, and the rest of the mirror stays.
pub proof fn law_announcement_reaches_the_mirror(m: ObsView, b: bool, s: String)
    ensures
        ({
            let n = mirrored(m, change_of("obs.connected"@, SignalValue::Bool(b)));
            n.connected == b && n.scene == m.scene && n.streaming == m.streaming && n.recording
                == m.recording
        }),
        ({
            let n = mirrored(m, change_of("obs.streaming"@, SignalValue::Bool(b)));
            n.streaming == b && n.scene == m.scene && n.connected == m.connected && n.recording
                == m.recording
        }),
        ({
            let n = mirrored(m, change_of("obs.recording"@, SignalValue::Bool(b)));
            n.recording == b && n.scene == m.scene && n.connected == m.connected && n.streaming
                == m.streaming
        }),
        ({
            let n = mirrored(m, change_of("obs.scene"@, SignalValue::Text(s)));
            n.scene == s@ && n.connected == m.connected && n.streaming == m.streaming && n.recording
                == m.recording
        }),
{
    lemma_paths();
    assert("obs.connected"@ != "obs.streaming"@);
    assert("obs.connected"@ != "obs.recording"@);
    assert("obs.streaming"@ != "obs.recording"@);
}

/// From an announcement to a probe: what OBS said last is what a macro reads.
pub proof fn law_announced_is_read(m: ObsView, b: bool, s: String, arg: ObsArg)
    requires
        m.connected,
    ensures
        says(arg, "streaming"@) ==> (answered(
            mirrored(m, change_of("obs.streaming"@, SignalValue::Bool(b))),
            "obs_get"@,
            arg,
        ).message == "true"@ <==> b),
        says(arg, "recording"@) ==> (answered(
            mirrored(m, change_of("obs.recording"@, SignalValue::Bool(b))),
            "obs_get"@,
            arg,
        ).message == "true"@ <==> b),
        says(arg, "scene"@) ==> answered(
            mirrored(m, change_of("obs.scene"@, SignalValue::Text(s))),
            "obs_get"@,
            arg,
        ).message == s@,
{
    law_announcement_reaches_the_mirror(m, b, s);
    law_probes_read_the_mirror(mirrored(m, change_of("obs.streaming"@, SignalValue::Bool(b))), arg);
    law_probes_read_the_mirror(mirrored(m, change_of("obs.recording"@, SignalValue::Bool(b))), arg);
    law_probes_read_the_mirror(mirrored(m, change_of("obs.scene"@, SignalValue::Text(s))), arg);
}

// ── the hooks ───────────────────────────────────────────────────────────────────────────────────

/// A hook fires where what OBS announces differs from what it announced before; the first announcement
/// and a repeat fire nothing. Each hook has its own change.
pub proof fn law_hook_fires_on_its_own_change(f: ObsFollower, b: bool, s: String)
    ensures
        fired(f, change_of("obs.streaming"@, SignalValue::Bool(b))) == (if f.prev_stream == Some(!b) {
            Some(Hook::Stream)
        } else {
            None
        }),
        fired(f, change_of("obs.recording"@, SignalValue::Bool(b))) == (if f.prev_record == Some(!b) {
            Some(Hook::Record)
        } else {
            None
        }),
        fired(f, change_of("obs.scene"@, SignalValue::Text(s))) == (match f.prev_scene {
            Some(t) => if t@ != s@ {
                Some(Hook::Scene)
            } else {
                None
            },
            None => None,
        }),
        fired(f, change_of("obs.connected"@, SignalValue::Bool(b))) is None,
{
    lemma_paths();
    assert("obs.connected"@ != "obs.streaming"@);
    assert("obs.connected"@ != "obs.recording"@);
    assert("obs.streaming"@ != "obs.recording"@);
}

/// What was announced is what the hook compares with the next time, and no other hook's memory moves.
pub proof fn law_hook_remembers(f: ObsFollower, b: bool, s: String)
    ensures
        stream_seen(f, change_of("obs.streaming"@, SignalValue::Bool(b))) == Some(b),
        record_seen(f, change_of("obs.streaming"@, SignalValue::Bool(b))) == f.prev_record,
        record_seen(f, change_of("obs.recording"@, SignalValue::Bool(b))) == Some(b),
        stream_seen(f, change_of("obs.recording"@, SignalValue::Bool(b))) == f.prev_stream,
        scene_seen(f, change_of("obs.scene"@, SignalValue::Text(s))) == Some(s@),
        scene_seen(f, change_of("obs.streaming"@, SignalValue::Bool(b))) == scene_text(f.prev_scene),
        stream_seen(f, change_of("obs.connected"@, SignalValue::Bool(b))) == f.prev_stream,
        record_seen(f, change_of("obs.connected"@, SignalValue::Bool(b))) == f.prev_record,
{
    lemma_paths();
    assert("obs.connected"@ != "obs.streaming"@);
    assert("obs.connected"@ != "obs.recording"@);
    assert("obs.streaming"@ != "obs.recording"@);
}

/// Every hook runs the macro that bears its name.
pub proof fn law_hook_runs_its_macro(h: Hook)
    ensures
        hook_name(h) == "on_obs_"@ + (match h {
            Hook::Stream => "stream"@,
            Hook::Record => "record"@,
            Hook::Scene => "scene"@,
        }),
{
    reveal_strlit("on_obs_");
    reveal_strlit("stream");
    reveal_strlit("record");
    reveal_strlit("scene");
    reveal_strlit("on_obs_stream");
    reveal_strlit("on_obs_record");
    reveal_strlit("on_obs_scene");
    assert("on_obs_stream"@ =~= "on_obs_"@ + "stream"@);
    assert("on_obs_record"@ =~= "on_obs_"@ + "record"@);
    assert("on_obs_scene"@ =~= "on_obs_"@ + "scene"@);
}

// ── the functions themselves ────────────────────────────────────────────────────────────────────

/// What a macro gets for a verb while OBS is connected: its stream and its recording are started,
/// stopped and toggled by the words for it.
pub proof fn law_verb_sends_its_command(m: &ObsSnapshot, verb: &str, arg: &ObsArg, r: ObsReply)
    requires
        call_ensures(obs_verb, (m, verb, arg), r),
        m.connected,
    ensures
        verb@ == "obs_stream"@ && says(*arg, "start"@) ==> r.ok && (r.command matches Some(
            ObsCmd::StartStream,
        )),
        verb@ == "obs_stream"@ && says(*arg, "stop"@) ==> r.ok && (r.command matches Some(
            ObsCmd::StopStream,
        )),
        verb@ == "obs_stream"@ && arg.text is None ==> r.ok && (r.command matches Some(
            ObsCmd::ToggleStream,
        )),
        verb@ == "obs_record"@ && says(*arg, "start"@) ==> r.ok && (r.command matches Some(
            ObsCmd::StartRecord,
        )),
        verb@ == "obs_record"@ && says(*arg, "stop"@) ==> r.ok && (r.command matches Some(
            ObsCmd::StopRecord,
        )),
        verb@ == "obs_record"@ && arg.text is None ==> r.ok && (r.command matches Some(
            ObsCmd::ToggleRecord,
        )),
        verb@ == "obs_scene"@ ==> (arg.text matches Some(t) ==> (t@.len() > 0 ==> (
        r.command matches Some(ObsCmd::SetScene(s)) && s@ == t@))),
        verb@ == "obs_mute"@ ==> (arg.text matches Some(t) ==> (r.command matches Some(
            ObsCmd::ToggleMute(s),
        ) && s@ == t@)),
{
    law_stream_verb(m@, *arg);
    law_record_verb(m@, *arg);
    law_scene_and_mute_verbs(m@, *arg);
    assert(r@.command == answered(m@, verb@, *arg).command);
}

/// What a macro reads is what OBS announced, whatever it is asked for and whether or not it is there.
pub proof fn law_verb_reads_the_mirror(m: &ObsSnapshot, verb: &str, arg: &ObsArg, r: ObsReply)
    requires
        call_ensures(obs_verb, (m, verb, arg), r),
        verb@ == "obs_get"@,
    ensures
        r.command is None,
        says(*arg, "connected"@) ==> r.ok && (r.message@ == "true"@ <==> m.connected),
        m.connected && says(*arg, "streaming"@) ==> r.ok && (r.message@ == "true"@ <==> m.streaming),
        m.connected && says(*arg, "recording"@) ==> r.ok && (r.message@ == "true"@ <==> m.recording),
        m.connected && says(*arg, "scene"@) ==> r.ok && r.message@ == m.scene@,
        !m.connected && !says(*arg, "connected"@) ==> !r.ok,
{
    law_probes_read_the_mirror(m@, *arg);
    assert(r@.command == answered(m@, verb@, *arg).command);
}

/// Nothing is sent while OBS is away.
pub proof fn law_nothing_is_sent_to_a_closed_obs(m: &ObsSnapshot, verb: &str, arg: &ObsArg, r: ObsReply)
    requires
        call_ensures(obs_verb, (m, verb, arg), r),
        !m.connected,
    ensures
        r.command is None,
        verb@ != "obs_get"@ ==> !r.ok,
{
    law_refused_verbs(m@, verb@, *arg);
    law_probes_read_the_mirror(m@, *arg);
    assert(r@.command == answered(m@, verb@, *arg).command);
}

/// A follower that takes a signal in shows it in its mirror and remembers it for its hook; a signal of
/// one sort touches nothing of another.
pub proof fn law_follower_takes_a_signal_in(
    f: &mut ObsFollower,
    path: &str,
    b: bool,
    r: Option<Hook>,
)
    requires
        call_ensures(ObsFollower::signal, (f, path, SignalValue::Bool(b)), r),
    ensures
        path@ == "obs.streaming"@ ==> final(f).mirror.streaming == b && final(f).mirror.recording == old(f).mirror.recording && final(f).mirror.connected == old(f).mirror.connected && final(f).prev_stream == Some(b) && final(f).prev_record == old(f).prev_record && (r is Some <==> old(f).prev_stream == Some(!b)),
        path@ == "obs.recording"@ ==> final(f).mirror.recording == b && final(f).mirror.streaming == old(f).mirror.streaming && final(f).mirror.connected == old(f).mirror.connected && final(f).prev_record == Some(b) && final(f).prev_stream == old(f).prev_stream && (r is Some <==> old(f).prev_record == Some(!b)),
        path@ == "obs.connected"@ ==> final(f).mirror.connected == b && final(f).mirror.streaming == old(f).mirror.streaming && final(f).mirror.recording == old(f).mirror.recording && r is None,
        final(f).mirror.scene@ == old(f).mirror.scene@,
{
    let s = old(f).mirror.scene;
    law_announcement_reaches_the_mirror(old(f).mirror@, b, s);
    law_hook_fires_on_its_own_change(*old(f), b, s);
    law_hook_remembers(*old(f), b, s);
    lemma_paths();
}

/// A follower that stops, and one whose mirror is asked for, say what OBS said and nothing older.
pub proof fn law_follower_stops_silent(f: &mut ObsFollower, m: &ObsSnapshot, shown: ObsSnapshot)
    requires
        call_ensures(ObsFollower::stop, (f,), ()),
        call_ensures(obs_snapshot, (m,), shown),
    ensures
        !final(f).mirror.connected && !final(f).mirror.streaming && !final(f).mirror.recording,
        final(f).mirror.scene@.len() == 0,
        shown.connected == m.connected && shown.scene@ == m.scene@ && shown.streaming == m.streaming
            && shown.recording == m.recording,
{
}

/// OBS is asked to announce itself anew once a lost subscription is back, and only once.
pub proof fn law_lost_subscription_is_resynced_once(f: &mut ObsFollower, got: bool, resync: bool)
    requires
        call_ensures(ObsFollower::resubscribed, (f, got), resync),
    ensures
        resync <==> got && old(f).reborn,
        resync ==> !final(f).reborn,
        !got ==> final(f).reborn == old(f).reborn && !final(f).subscribed,
        final(f).mirror == old(f).mirror,
{
}

/// A hook fires on a change of what was seen before, never on the first look; what was seen is kept.
pub proof fn law_hook_fires_on_change(
    a: &mut Option<bool>,
    b: &mut Option<bool>,
    c: &mut Option<String>,
    d: &mut Option<String>,
    x: bool,
    y: bool,
    s: String,
    t: String,
    first: bool,
    second: bool,
    text: bool,
    other: bool,
)
    requires
        *old(a) is None,
        call_ensures(hook_on_change, (a, x), first),
        *old(b) == *final(a),
        call_ensures(hook_on_change, (b, y), second),
        *old(c) is None,
        call_ensures(hook_on_text_change, (c, s), text),
        *old(d) == *final(c),
        call_ensures(hook_on_text_change, (d, t), other),
    ensures
        !first && !text,
        second <==> x != y,
        other <==> s@ != t@,
        *final(b) == Some(y) && *final(d) == Some(t),
{
}

/// A hook is a macro of its own name; a follower that lost its connection forgets its subscription alone.
pub proof fn law_hooks_are_macros(h: Hook, name: &'static str, f: &mut ObsFollower)
    requires
        call_ensures(hook_macro, (h,), name),
        call_ensures(ObsFollower::disconnected, (f,), ()),
    ensures
        h is Stream ==> name@ == "on_obs_stream"@,
        h is Record ==> name@ == "on_obs_record"@,
        h is Scene ==> name@ == "on_obs_scene"@,
        !final(f).subscribed && final(f).reborn,
        final(f).mirror == old(f).mirror && final(f).prev_stream == old(f).prev_stream && final(f).prev_record
            == old(f).prev_record && final(f).prev_scene == old(f).prev_scene,
{
}

/// A follower begins silent; stopping silences what it mirrors and nothing else, and a signal leaves its
/// subscription alone.
pub proof fn law_follower_begins_and_stops_silent(subscribed: bool, f: ObsFollower, a: &mut ObsFollower, b: &mut ObsFollower, path: &str, v: SignalValue, r: Option<Hook>)
    requires
        call_ensures(ObsFollower::new, (subscribed,), f),
        call_ensures(ObsFollower::stop, (a,), ()),
        call_ensures(ObsFollower::signal, (b, path, v), r),
    ensures
        f.subscribed == subscribed && !f.reborn && f.prev_stream is None && f.prev_record is None && f.prev_scene is None,
        f.mirror.scene@.len() == 0 && !f.mirror.streaming && !f.mirror.recording,
        final(a).mirror@ == f.mirror@,
        final(a).subscribed == old(a).subscribed && final(a).reborn == old(a).reborn && final(a).prev_stream == old(
            a).prev_stream && final(a).prev_record == old(a).prev_record && final(a).prev_scene == old(a).prev_scene,
        final(b).subscribed == old(b).subscribed && final(b).reborn == old(b).reborn,
{
}

/// A probe that is none tells which there are.
pub proof fn law_unknown_probe_tells_which_there_are(m: ObsView, probe: Seq<char>)
    requires
        m.connected,
        probe != "connected"@ && probe != "scene"@ && probe != "streaming"@ && probe != "recording"@,
    ensures
        !probed(m, probe).ok,
        probed(m, probe).command is None,
        probed(m, probe).message == "obs_get: unknown probe '"@ + probe
            + "' (scene|streaming|recording|connected)"@,
{
}

} // verus!
