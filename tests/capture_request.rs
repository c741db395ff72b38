use fireshot::capture::{CaptureMode, CaptureRequest, ExportTask, TASK_COPY, TASK_SAVE};

#[test]
fn default_request_is_immediate_graphical() {
    let r = CaptureRequest::default();
    assert_eq!(r.mode, CaptureMode::Graphical);
    assert_eq!(r.delay_ms, 0);
    assert!(r.tasks.is_empty());
    assert!(r.save_path.is_none());
}

#[test]
fn export_tasks_combine() {
    let both = ExportTask::from_bits(TASK_COPY).union(ExportTask::from_bits(TASK_SAVE));
    assert_eq!(both.bits, 3);
    assert!(both.contains(ExportTask::from_bits(TASK_COPY)));
    assert!(!ExportTask::from_bits(TASK_COPY).contains(both));
    assert!(ExportTask::none().is_empty());
}
