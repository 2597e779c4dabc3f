use potato_stream::app::{media_plan, task_name, window_name, MediaStep, MediaTask, Role};

#[test]
fn streamer_plan() {
    assert_eq!(
        media_plan(Role::Stream { loopback: false }),
        vec![
            MediaStep::Advertise,
            MediaStep::Spawn(MediaTask::VideoCapture),
            MediaStep::Spawn(MediaTask::VideoServer),
        ]
    );
    assert_eq!(
        media_plan(Role::Stream { loopback: true }),
        vec![
            MediaStep::Advertise,
            MediaStep::Spawn(MediaTask::VideoCapture),
            MediaStep::Spawn(MediaTask::VideoDisplay { streamer: true }),
            MediaStep::Spawn(MediaTask::VideoServer),
        ]
    );
}

#[test]
fn watcher_plan() {
    assert_eq!(
        media_plan(Role::Watch),
        vec![
            MediaStep::FindStream,
            MediaStep::Spawn(MediaTask::VideoDisplay { streamer: false }),
            MediaStep::Spawn(MediaTask::VideoClient),
        ]
    );
}

#[test]
fn task_and_window_names() {
    assert_eq!(task_name(MediaTask::VideoCapture), "video_capture");
    assert_eq!(task_name(MediaTask::VideoDisplay { streamer: true }), "video_display");
    assert_eq!(task_name(MediaTask::VideoServer), "video_server");
    assert_eq!(task_name(MediaTask::VideoClient), "video_client");
    assert_eq!(window_name(true), "streamer");
    assert_eq!(window_name(false), "watcher");
}
