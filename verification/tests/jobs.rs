use std::collections::HashSet;

use edged_core::desktop::{AppEntry, Application, Desktop, Window};
use edged_core::jobs::{
    flush, list_step, slice_left, slice_spent, sync_step, Job, Jobs, Reread, SLICE, SLOW_REST,
};
use edged_core::space::Change;
use edged_core::upkeep::WalkOutcome;

fn pid_of(job: &Job) -> (char, i32) {
    match job {
        Job::List { pid, .. } => ('l', *pid),
        Job::Walk { pid, .. } => ('w', *pid),
        Job::Icon(pid) => ('i', *pid),
    }
}

fn set(ids: &[u32]) -> HashSet<u32> {
    ids.iter().copied().collect()
}

fn entry(pid: i32, windows: Vec<u32>) -> AppEntry {
    AppEntry {
        application: Application {
            pid,
            bundle_id: None,
            bundle_path: None,
            name: format!("app {pid}"),
            is_active: false,
            is_hidden: false,
        },
        windows: windows
            .into_iter()
            .map(|id| Window {
                id,
                pid,
                title: String::new(),
                is_minimized: false,
                is_fullscreen: false,
                spaces: Vec::new(),
            })
            .collect(),
        focused: None,
        badge: None,
    }
}

#[test]
fn a_slow_process_is_left_alone_for_a_while() {
    let mut jobs = Jobs::new();
    jobs.push_list(7, vec![1]);
    jobs.push_icon(7);
    jobs.listed(7, 1_000, 1_200);
    assert_eq!(jobs.slow.get(&7), Some(&(1_200 + SLOW_REST)));
    jobs.listed(8, 1_000, 1_100);
    assert_eq!(jobs.slow.get(&8), None);
    let next = jobs.next(2_000).expect("the icon is still read");
    assert_eq!(pid_of(&next), ('i', 7));
    assert!(!jobs.more());

    jobs.push_list(7, vec![1]);
    let later = jobs.next(1_200 + SLOW_REST).expect("the rest is over");
    assert_eq!(pid_of(&later), ('l', 7));
    assert!(jobs.next(0).is_none());
}

#[test]
fn a_walk_resumes_first_and_what_it_cannot_find_is_remembered() {
    let mut jobs = Jobs::new();
    jobs.push_icon(9);
    assert!(jobs.walked(7, vec![1, 2], 40, WalkOutcome::Resume));
    assert_eq!(pid_of(&jobs.queue[0]), ('w', 7));
    assert!(jobs.is_walking(7));
    assert!(jobs.is_queued(7));
    assert!(!jobs.is_queued(9));
    assert!(!jobs.walked(7, vec![1, 2], 1_000, WalkOutcome::Unresolved(set(&[2]))));
    assert_eq!(jobs.unresolved_of(7), Some(&set(&[2])));
    assert!(!jobs.walked(7, vec![1, 2], 1_000, WalkOutcome::Settled));
    assert_eq!(jobs.unresolved_of(7), None);
}

#[test]
fn a_walk_is_queued_after_a_listing_only_when_worth_it() {
    let mut jobs = Jobs::new();
    assert!(jobs.after_listing(true, 7, vec![1, 2], &vec![2]));
    assert!(!jobs.after_listing(true, 7, vec![1, 2], &vec![2]));
    assert!(!jobs.after_listing(false, 8, vec![3], &vec![3]));
    assert_eq!(jobs.queue.len(), 1);
}

#[test]
fn arrivals_and_a_fresh_look_queue_their_reads() {
    let groups = vec![(7, vec![1, 2]), (8, vec![3])];
    let mut jobs = Jobs::new();
    jobs.queue_arrivals(&vec![7, 9], &groups);
    let kinds: Vec<(char, i32)> = jobs.queue.iter().map(pid_of).collect();
    assert_eq!(kinds, vec![('l', 7), ('i', 7), ('l', 9), ('i', 9)]);
    match &jobs.queue[0] {
        Job::List { expected, .. } => assert_eq!(expected, &vec![1, 2]),
        _ => panic!("a listing comes first"),
    }
    let mut fresh = Jobs::new();
    fresh.relist_all(&vec![entry(8, vec![]), entry(7, vec![])], &groups);
    let kinds: Vec<(char, i32)> = fresh.queue.iter().map(pid_of).collect();
    assert_eq!(kinds, vec![('l', 8), ('l', 7)]);
}

#[test]
fn only_applications_that_differ_from_the_server_are_read_again() {
    let groups = vec![(7, vec![1, 2]), (8, vec![3]), (9, vec![4])];
    let applications = vec![entry(7, vec![1, 2]), entry(8, vec![]), entry(9, vec![4, 5]), entry(6, vec![])];
    let mut jobs = Jobs::new();
    assert!(jobs.reconcile(&applications, &groups));
    let kinds: Vec<(char, i32)> = jobs.queue.iter().map(pid_of).collect();
    assert_eq!(kinds, vec![('l', 8), ('l', 9)]);
    assert!(!jobs.reconcile(&applications, &groups));
}

#[test]
fn what_is_recorded_of_a_process_goes_with_it() {
    let mut jobs = Jobs::new();
    let _ = jobs.walked(7, Vec::new(), 0, WalkOutcome::Unresolved(set(&[2])));
    let _ = jobs.walked(8, Vec::new(), 0, WalkOutcome::Unresolved(set(&[3])));
    jobs.listed(8, 0, 1_000);
    jobs.forget_gone(&vec![7]);
    assert_eq!(jobs.unresolved_of(7), Some(&set(&[2])));
    assert_eq!(jobs.unresolved_of(8), None);
    assert!(jobs.slow.is_empty());
}

#[test]
fn gathered_changes_drop_closed_windows_queue_stale_lists_and_leave_the_rest() {
    let mut desktop = Desktop {
        spaces: Vec::new(),
        applications: vec![entry(7, vec![1, 2]), entry(8, vec![3])],
        showing: Vec::new(),
    };
    let mut jobs = Jobs::new();
    let changes = vec![
        Change::Closed(7, 1),
        Change::Windows(8),
        Change::Window(7, 2),
        Change::Focus(8),
        Change::Closed(8, 9),
        Change::Spaces,
    ];
    let groups = vec![(8, vec![3, 4])];
    let rereads = flush(&mut desktop, &mut jobs, &changes, &groups);
    assert_eq!(rereads, vec![Reread::Window(7, 2), Reread::Focus(8), Reread::Spaces]);
    let left: Vec<u32> = desktop.applications[0].windows.iter().map(|w| w.id).collect();
    assert_eq!(left, vec![2]);
    assert_eq!(desktop.applications[1].windows.len(), 1);
    assert_eq!(jobs.queue.len(), 1);
    match &jobs.queue[0] {
        Job::List { pid, expected } => {
            assert_eq!(*pid, 8);
            assert_eq!(expected, &vec![3, 4]);
        }
        _ => panic!("a stale list is read again"),
    }
}

#[test]
fn a_slice_is_spent_after_its_milliseconds() {
    assert!(!slice_spent(100, 100 + SLICE - 1));
    assert!(slice_spent(100, 100 + SLICE));
    assert!(!slice_spent(100, 50));
    assert_eq!(slice_left(100, 103), SLICE - 3);
    assert_eq!(slice_left(100, 200), 0);
    assert_eq!(slice_left(100, 90), SLICE);
}

#[test]
fn a_listing_queues_a_walk_for_what_it_left_missing() {
    let mut desktop = Desktop {
        spaces: Vec::new(),
        applications: vec![entry(7, vec![1])],
        showing: Vec::new(),
    };
    let mut jobs = Jobs::new();
    assert!(list_step(&mut desktop, &mut jobs, true, 7, vec![1, 2], Vec::new(), None));
    let kinds: Vec<(char, i32)> = jobs.queue.iter().map(pid_of).collect();
    assert_eq!(kinds, vec![('w', 7)]);
    assert!(!list_step(&mut desktop, &mut jobs, true, 7, vec![1, 2], Vec::new(), None));
    assert!(!list_step(&mut desktop, &mut jobs, true, 8, vec![5], Vec::new(), None));
    assert!(!list_step(&mut desktop, &mut jobs, true, 7, vec![1], Vec::new(), None));
    assert_eq!(jobs.queue.len(), 1);
}

#[test]
fn arrivals_are_read_and_processes_gone_forgotten() {
    let mut desktop = Desktop {
        spaces: Vec::new(),
        applications: vec![entry(7, vec![1]), entry(8, vec![2])],
        showing: Vec::new(),
    };
    let mut jobs = Jobs::new();
    let _ = jobs.walked(8, Vec::new(), 0, WalkOutcome::Unresolved(set(&[3])));
    let _ = jobs.walked(7, Vec::new(), 0, WalkOutcome::Unresolved(set(&[4])));
    let running = vec![
        (entry(7, vec![]).application, None),
        (entry(9, vec![]).application, None),
    ];
    let groups = vec![(9, vec![5])];
    let arrived = sync_step(&mut desktop, &mut jobs, running, &Vec::new(), &groups);
    assert_eq!(arrived, vec![9]);
    let kinds: Vec<(char, i32)> = jobs.queue.iter().map(pid_of).collect();
    assert_eq!(kinds, vec![('l', 9), ('i', 9)]);
    assert_eq!(jobs.unresolved_of(8), None);
    assert_eq!(jobs.unresolved_of(7), Some(&set(&[4])));
    assert_eq!(desktop.applications[0].windows.len(), 1);
}
