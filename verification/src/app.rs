//! What the program starts, depending on whether it streams or watches.
//!
//! A streamer advertises its stream, then runs the camera capture, a local
//! display when loopback is asked for, and the stream server. A watcher
//! first finds the streaming peer, then runs the display and the stream
//! client.
use vstd::prelude::*;

verus! {

/// What the program is asked to do.
#[derive(Clone, Copy, Debug, PartialEq, Eq)]
pub enum Role {
    /// Stream video, and show it locally as well when `loopback` is set.
    Stream { loopback: bool },
    /// Watch a streamed video.
    Watch,
}

/// A long-running task of the program.
#[derive(Clone, Copy, Debug, PartialEq, Eq)]
pub enum MediaTask {
    /// Reads frames from the camera.
    VideoCapture,
    /// Shows frames in a window; `streamer` tells the two windows apart.
    VideoDisplay { streamer: bool },
    /// Serves the stream to watchers.
    VideoServer,
    /// Receives the stream from the streamer.
    VideoClient,
}

/// One step of starting the media side.
#[derive(Clone, Copy, Debug, PartialEq, Eq)]
pub enum MediaStep {
    /// Publish the stream in this peer's metadata.
    Advertise,
    /// Wait until the streaming peer is found.
    FindStream,
    /// Start a task.
    Spawn(MediaTask),
}

/// The steps that start the media side, in order.
pub open spec fn media_plan_spec(role: Role) -> Seq<MediaStep> {
    match role {
        Role::Stream { loopback } => if loopback {
            seq![
                MediaStep::Advertise,
                MediaStep::Spawn(MediaTask::VideoCapture),
                MediaStep::Spawn(MediaTask::VideoDisplay { streamer: true }),
                MediaStep::Spawn(MediaTask::VideoServer),
            ]
        } else {
            seq![
                MediaStep::Advertise,
                MediaStep::Spawn(MediaTask::VideoCapture),
                MediaStep::Spawn(MediaTask::VideoServer),
            ]
        },
        Role::Watch => seq![
            MediaStep::FindStream,
            MediaStep::Spawn(MediaTask::VideoDisplay { streamer: false }),
            MediaStep::Spawn(MediaTask::VideoClient),
        ],
    }
}

/// The steps that start the media side for `role`, in order.
pub fn media_plan(role: Role) -> (steps: Vec<MediaStep>)
    ensures
        steps@ == media_plan_spec(role),
{
    let mut steps: Vec<MediaStep> = Vec::new();
    match role {
        Role::Stream { loopback } => {
            steps.push(MediaStep::Advertise);
            steps.push(MediaStep::Spawn(MediaTask::VideoCapture));
            if loopback {
                steps.push(MediaStep::Spawn(MediaTask::VideoDisplay { streamer: true }));
            }
            steps.push(MediaStep::Spawn(MediaTask::VideoServer));
        },
        Role::Watch => {
            steps.push(MediaStep::FindStream);
            steps.push(MediaStep::Spawn(MediaTask::VideoDisplay { streamer: false }));
            steps.push(MediaStep::Spawn(MediaTask::VideoClient));
        },
    }
    assert(steps@ =~= media_plan_spec(role));
    steps
}

/// The name a task is registered under.
pub open spec fn task_name_spec(task: MediaTask) -> Seq<char> {
    match task {
        MediaTask::VideoCapture => "video_capture"@,
        MediaTask::VideoDisplay { .. } => "video_display"@,
        MediaTask::VideoServer => "video_server"@,
        MediaTask::VideoClient => "video_client"@,
    }
}

/// The name a task is registered under.
pub fn task_name(task: MediaTask) -> (name: &'static str)
    ensures
        name@ == task_name_spec(task),
        task is VideoDisplay ==> name@ == "video_display"@,
        task is VideoCapture ==> name@ == "video_capture"@,
        task is VideoServer ==> name@ == "video_server"@,
        task is VideoClient ==> name@ == "video_client"@,
{
    match task {
        MediaTask::VideoCapture => "video_capture",
        MediaTask::VideoDisplay { .. } => "video_display",
        MediaTask::VideoServer => "video_server",
        MediaTask::VideoClient => "video_client",
    }
}

/// Task names, in terms of the tasks: the display task is `video_display`
/// whichever side shows it, the others are `video_capture`,
/// `video_server` and `video_client`; tasks of different kinds never share a
/// name, so within one plan every started task has its own name.
pub proof fn lemma_task_names(role: Role, streamer: bool)
    ensures
        task_name_spec(MediaTask::VideoDisplay { streamer }) == "video_display"@,
        task_name_spec(MediaTask::VideoCapture) == "video_capture"@,
        task_name_spec(MediaTask::VideoServer) == "video_server"@,
        task_name_spec(MediaTask::VideoClient) == "video_client"@,
        forall|a: MediaTask, b: MediaTask|
            task_name_spec(a) == task_name_spec(b) ==> (a is VideoDisplay && b is VideoDisplay)
                || a == b,
        forall|i: int, j: int|
            0 <= i < j < media_plan_spec(role).len() ==> match (
                #[trigger] media_plan_spec(role)[i],
                #[trigger] media_plan_spec(role)[j],
            ) {
                (MediaStep::Spawn(a), MediaStep::Spawn(b)) => task_name_spec(a) != task_name_spec(
                    b,
                ),
                _ => true,
            },
{
    reveal_strlit("video_display");
    reveal_strlit("video_capture");
    reveal_strlit("video_server");
    reveal_strlit("video_client");
    assert("video_display"@ != "video_capture"@) by {
        assert("video_display"@[6] != "video_capture"@[6]);
    }
    assert("video_display"@ != "video_server"@) by {
        assert("video_display"@[6] != "video_server"@[6]);
    }
    assert("video_display"@ != "video_client"@) by {
        assert("video_display"@[6] != "video_client"@[6]);
    }
    assert("video_capture"@ != "video_server"@) by {
        assert("video_capture"@[6] != "video_server"@[6]);
    }
    assert("video_capture"@ != "video_client"@) by {
        assert("video_capture"@[7] != "video_client"@[7]);
    }
    assert("video_server"@ != "video_client"@) by {
        assert("video_server"@[6] != "video_client"@[6]);
    }
}

/// The title of the display window: the streamer's own window and the
/// watcher's are told apart.
pub fn window_name(streamer: bool) -> (name: &'static str)
    ensures
        name@ == (if streamer {
            "streamer"@
        } else {
            "watcher"@
        }),
{
    if streamer {
        "streamer"
    } else {
        "watcher"
    }
}

/// A streamer starts by advertising and runs the server but never the
/// client; a watcher starts by finding the stream and runs the client but
/// never the server; no step comes twice.
pub proof fn lemma_media_plan_roles(role: Role)
    ensures
        (role is Stream) ==> media_plan_spec(role).contains(MediaStep::Spawn(MediaTask::VideoServer))
            && !media_plan_spec(role).contains(MediaStep::Spawn(MediaTask::VideoClient))
            && media_plan_spec(role)[0] == MediaStep::Advertise,
        (role is Watch) ==> media_plan_spec(role).contains(MediaStep::Spawn(MediaTask::VideoClient))
            && !media_plan_spec(role).contains(MediaStep::Spawn(MediaTask::VideoServer))
            && media_plan_spec(role)[0] == MediaStep::FindStream,
        media_plan_spec(role).no_duplicates(),
{
    let p = media_plan_spec(role);
    match role {
        Role::Stream { loopback } => {
            assert(p.contains(MediaStep::Spawn(MediaTask::VideoServer))) by {
                assert(p[p.len() - 1] == MediaStep::Spawn(MediaTask::VideoServer));
            }
        },
        Role::Watch => {
            assert(p[2] == MediaStep::Spawn(MediaTask::VideoClient));
        },
    }
}

} // verus!
