use contemporary::jobs::{
    jobs_menu, job_button_animates, ping_color, should_track_after_delay, should_track_immediately,
    DelayedTracking, JobButton, JobButtonState, JobInfo, JobManager, JobStatus, StandardJob,
};

fn info(status: JobStatus, transient: bool) -> JobInfo {
    JobInfo { status, transient }
}

#[test]
fn job_status_completeness() {
    assert!(JobStatus::Completed.is_complete());
    assert!(JobStatus::Failed.is_complete());
    assert!(!JobStatus::InProgress.is_complete());
    assert!(!JobStatus::RequiresAttention.is_complete());
}

#[test]
fn a_new_manager_hides_the_button() {
    let manager = JobManager::new();
    assert!(manager.job_button_state(&vec![]) == JobButtonState::Hidden);
    assert!(!manager.is_job_menu_open);
    assert_eq!(manager.job_len(&vec![]), 0);
}

#[test]
fn button_state_priorities() {
    let mut manager = JobManager::default();
    manager.track_job(1);
    manager.track_job(2);
    let state = |a, b| manager.job_button_state(&vec![info(a, false), info(b, false)]);
    assert!(state(JobStatus::InProgress, JobStatus::InProgress) == JobButtonState::Idle);
    assert!(state(JobStatus::Completed, JobStatus::InProgress) == JobButtonState::HaveSuccess);
    assert!(state(JobStatus::Completed, JobStatus::Failed) == JobButtonState::HaveFailure);
    assert!(
        state(JobStatus::RequiresAttention, JobStatus::Failed)
            == JobButtonState::HaveRequiresAttention
    );
}

#[test]
fn complete_jobs_that_do_not_stay_are_not_listed() {
    let mut manager = JobManager::new();
    manager.track_job(10);
    manager.track_job(11);
    manager.track_job(12);
    let infos = vec![
        info(JobStatus::Completed, false),
        info(JobStatus::InProgress, false),
        info(JobStatus::Failed, true),
    ];
    assert_eq!(manager.tracked_jobs(&infos), vec![11, 12]);
    assert_eq!(manager.job_len(&infos), 2);
    assert_eq!(manager.job(0, &infos), Some(11));
    assert_eq!(manager.job(1, &infos), Some(12));
    assert_eq!(manager.job(2, &infos), None);
}

#[test]
fn opening_the_menu_marks_complete_jobs_as_seen() {
    let mut manager = JobManager::new();
    manager.track_job(1);
    manager.track_job(2);
    manager.track_job(3);
    let infos = vec![
        info(JobStatus::Completed, true),
        info(JobStatus::InProgress, true),
        info(JobStatus::Failed, true),
    ];
    manager.set_job_menu_open(true, &infos);
    assert!(manager.is_job_menu_open);
    assert_eq!(manager.unfinished_jobs(), &vec![2]);
    assert_eq!(manager.jobs(), &vec![1, 2, 3]);
    manager.set_job_menu_open(false, &infos);
    assert!(!manager.is_job_menu_open);
    assert_eq!(manager.unfinished_jobs(), &vec![2]);
}

#[test]
fn a_finished_job_that_does_not_stay_stops_being_unfinished() {
    let mut manager = JobManager::new();
    manager.track_job(7);
    manager.track_job(8);
    manager.job_updated(7, info(JobStatus::Completed, true));
    assert_eq!(manager.unfinished_jobs(), &vec![7, 8]);
    manager.job_updated(7, info(JobStatus::InProgress, false));
    assert_eq!(manager.unfinished_jobs(), &vec![7, 8]);
    manager.job_updated(7, info(JobStatus::Completed, false));
    assert_eq!(manager.unfinished_jobs(), &vec![8]);
}

#[test]
fn delayed_tracking_decisions() {
    assert!(should_track_after_delay(JobStatus::InProgress, false));
    assert!(should_track_after_delay(JobStatus::Failed, false));
    assert!(!should_track_after_delay(JobStatus::Completed, false));
    assert!(!should_track_after_delay(JobStatus::InProgress, true));
    assert!(should_track_immediately(JobStatus::RequiresAttention));
    assert!(should_track_immediately(JobStatus::Failed));
    assert!(!should_track_immediately(JobStatus::Completed));
    assert!(!should_track_immediately(JobStatus::InProgress));
}

#[test]
fn standard_job_progress() {
    let mut job = StandardJob::new("Copy".to_string(), "Copying files".to_string());
    assert_eq!(job.progress_fraction(), (0, 100));
    assert!(!job.progress_indeterminate());
    job.update_job_progress(30, 60);
    assert_eq!(job.progress_fraction(), (30, 60));
    job.update_job_progress(150, 100);
    assert_eq!(job.progress_fraction(), (100, 100));
    job.set_job_progress_indeterminate();
    assert_eq!(job.progress_fraction(), (0, 1));
    assert!(job.progress_indeterminate());
    job.update_job_status("Done".to_string(), JobStatus::Completed);
    assert_eq!(job.progress_fraction(), (1, 1));
    assert!(!job.progress_indeterminate());
    assert_eq!(job.description(), "Done");
    assert_eq!(job.title(), "Copy");
    assert!(!job.shows_progress_bar());
}

#[test]
fn standard_job_kinds() {
    let job = StandardJob::new_indeterminate("a".to_string(), "b".to_string());
    assert!(job.progress_indeterminate());
    assert!(!job.transient());
    let job = StandardJob::new_transient("a".to_string(), "b".to_string());
    assert!(job.transient());
    assert!(job.status() == JobStatus::InProgress);
    assert!(job.info() == JobInfo { status: JobStatus::InProgress, transient: true });
    assert!(job.shows_progress_bar());
}

#[test]
fn job_button_remembers_state_changes() {
    let mut button = JobButton::new(100);
    assert!(button.take_first_update());
    assert!(!button.take_first_update());
    button.observe_state(JobButtonState::Idle, 150);
    assert_eq!(button.old_job_button_state_since, 150);
    button.observe_state(JobButtonState::Idle, 200);
    assert_eq!(button.old_job_button_state_since, 150);
    assert_eq!(button.time_since_state_change(400), 250);
    assert_eq!(button.time_since_state_change(100), 0);
}

#[test]
fn job_button_ping() {
    assert_eq!(ping_color(JobButtonState::HaveFailure), Some(0xFF0000));
    assert_eq!(ping_color(JobButtonState::HaveSuccess), Some(0x00FF00));
    assert_eq!(ping_color(JobButtonState::HaveRequiresAttention), Some(0xFFFF00));
    assert_eq!(ping_color(JobButtonState::Idle), None);
    assert!(job_button_animates(JobButtonState::HaveSuccess));
    assert!(!job_button_animates(JobButtonState::Hidden));
    let _menu = jobs_menu();
}

#[test]
fn a_job_tracked_at_once_is_not_tracked_again() {
    let mut t = DelayedTracking::new();
    assert!(!t.job_changed(JobStatus::InProgress));
    assert!(!t.cancelled);
    assert!(t.job_changed(JobStatus::Failed));
    assert!(t.cancelled);
    assert!(!t.delay_elapsed(JobStatus::Failed));
    assert!(!t.delay_elapsed(JobStatus::InProgress));

    let t = DelayedTracking::new();
    assert!(t.delay_elapsed(JobStatus::InProgress));
    assert!(t.delay_elapsed(JobStatus::RequiresAttention));
    assert!(!t.delay_elapsed(JobStatus::Completed));
}

#[test]
fn unfinished_jobs_are_always_tracked() {
    let mut m = JobManager::new();
    m.track_job(1);
    m.track_job(2);
    m.job_updated(1, JobInfo { status: JobStatus::Completed, transient: false });
    m.set_job_menu_open(true, &vec![
        JobInfo { status: JobStatus::Completed, transient: false },
        JobInfo { status: JobStatus::Completed, transient: true },
    ]);
    m.track_job(3);
    for j in m.unfinished_jobs() {
        assert!(m.jobs().contains(j));
    }
    assert_eq!(m.unfinished_jobs(), &vec![3]);
}

#[test]
fn a_transient_job_stays_listed_after_completion() {
    let mut manager = JobManager::new();
    manager.track_job(5);
    let infos = vec![info(JobStatus::Completed, true)];
    assert_eq!(manager.job_len(&infos), 1);
    assert_eq!(manager.job(0, &infos), Some(5));
}

#[test]
fn a_cancellation_callback_makes_a_job_cancellable() {
    let job = StandardJob::new("a".to_string(), "b".to_string()).with_cancellation_callback(|| {});
    assert_eq!(job.title(), "a");
    assert_eq!(job.progress_fraction(), (0, 100));
}
