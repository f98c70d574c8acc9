use organizer::process::{
    apply_cwd_report, first_reported_path, map_status, owner_name, path_file_name,
    process_details, rank_processes, top_processes, DetailError, KernelStatus, KernelUsage,
    NativeProbes, ProcessFacts, ProcessSample, ProcessState, ProcessSummary,
};

fn sample(pid: u32, resident: u64, footprint: Option<u64>) -> ProcessSample {
    ProcessSample {
        pid,
        name: format!("proc{}", pid),
        cwd: None,
        resident_bytes: resident,
        virtual_bytes: resident * 2,
        footprint_bytes: footprint,
    }
}

fn summary(pid: u32, memory: u64) -> ProcessSummary {
    ProcessSummary {
        pid,
        name: format!("proc{}", pid),
        cwd: None,
        memory_bytes: memory,
        virtual_bytes: 0,
    }
}

fn facts() -> ProcessFacts {
    ProcessFacts {
        name: "server".to_string(),
        status: KernelStatus::Sleep,
        parent_pid: Some(1),
        exe_path: Some("/usr/bin/server".to_string()),
        cwd: Some("/srv/app".to_string()),
        cmd_args: vec!["server".to_string(), "--port".to_string(), "80".to_string()],
        start_time: 1_700_000_000,
        resident_bytes: 4096,
        virtual_bytes: 8192,
        disk_read_bytes: 10,
        disk_write_bytes: 20,
    }
}

fn no_probes() -> NativeProbes {
    NativeProbes { usage: None, owner_report: None, cwd_report: None }
}

#[test]
fn top_processes_sorted_and_cut() {
    let samples = vec![
        sample(1, 100, None),
        sample(2, 500, None),
        sample(3, 300, None),
        sample(4, 50, None),
    ];
    let top = top_processes(samples, 3);
    let pids: Vec<u32> = top.iter().map(|p| p.pid).collect();
    assert_eq!(pids, vec![2, 3, 1]);
    assert!(top.windows(2).all(|w| w[0].memory_bytes >= w[1].memory_bytes));
}

#[test]
fn top_processes_limit_above_count() {
    let samples = vec![sample(1, 100, None), sample(2, 200, None)];
    let top = top_processes(samples, 10);
    assert_eq!(top.len(), 2);
    assert_eq!(top[0].pid, 2);
}

#[test]
fn top_processes_zero_limit_is_empty() {
    let samples = vec![sample(1, 100, None), sample(2, 200, None)];
    assert!(top_processes(samples, 0).is_empty());
    assert!(top_processes(Vec::new(), 0).is_empty());
}

#[test]
fn top_processes_prefers_kernel_footprint() {
    let samples = vec![sample(1, 1000, Some(10)), sample(2, 100, None)];
    let top = top_processes(samples, 2);
    assert_eq!(top[0].pid, 2);
    assert_eq!(top[0].memory_bytes, 100);
    assert_eq!(top[1].pid, 1);
    assert_eq!(top[1].memory_bytes, 10);
    assert_eq!(top[1].virtual_bytes, 2000);
}

#[test]
fn ranking_keeps_order_of_ties() {
    let list = vec![summary(7, 5), summary(3, 9), summary(8, 5), summary(1, 5), summary(2, 9)];
    let ranked = rank_processes(list, 4);
    let pids: Vec<u32> = ranked.iter().map(|p| p.pid).collect();
    assert_eq!(pids, vec![3, 2, 7, 8]);
}

#[test]
fn cwd_report_sets_final_segments() {
    let mut list = vec![summary(10, 3), summary(20, 2), summary(30, 1)];
    let report = "p10\nfcwd\nn/Users/me/projects/alpha\np30\nfcwd\nn/var/log/\np99\nn/tmp/x\n";
    apply_cwd_report(&mut list, report);
    assert_eq!(list[0].cwd.as_deref(), Some("alpha"));
    assert_eq!(list[1].cwd, None);
    assert_eq!(list[2].cwd.as_deref(), Some("log"));
}

#[test]
fn cwd_report_root_and_bad_pid() {
    let mut list = vec![summary(10, 3), summary(20, 2)];
    list[1].cwd = Some("keep".to_string());
    apply_cwd_report(&mut list, "p10\nn/\npabc\nn/home/other\n");
    assert_eq!(list[0].cwd, None);
    assert_eq!(list[1].cwd.as_deref(), Some("keep"));
}

#[test]
fn path_file_name_cases() {
    assert_eq!(path_file_name("/usr/local/bin").as_deref(), Some("bin"));
    assert_eq!(path_file_name("/usr/local/bin/").as_deref(), Some("bin"));
    assert_eq!(path_file_name("/usr/./lib/.").as_deref(), Some("lib"));
    assert_eq!(path_file_name("relative").as_deref(), Some("relative"));
    assert_eq!(path_file_name("/"), None);
    assert_eq!(path_file_name(""), None);
    assert_eq!(path_file_name("/usr/.."), None);
    assert_eq!(path_file_name("."), None);
}

#[test]
fn owner_name_is_trimmed() {
    assert_eq!(owner_name("  alice \n").as_deref(), Some("alice"));
    assert_eq!(owner_name(" \n"), None);
}

#[test]
fn first_reported_path_takes_first_name_line() {
    let report = "p42\nfcwd\nn/Users/me/work dir\nn/other\n";
    assert_eq!(first_reported_path(report).as_deref(), Some("/Users/me/work dir"));
    assert_eq!(first_reported_path("p42\nfcwd\n"), None);
}

#[test]
fn status_maps_to_six_states() {
    assert_eq!(map_status(KernelStatus::Run), ProcessState::Running);
    assert_eq!(map_status(KernelStatus::Sleep), ProcessState::Sleeping);
    assert_eq!(map_status(KernelStatus::Stop), ProcessState::Stopped);
    assert_eq!(map_status(KernelStatus::Zombie), ProcessState::Zombie);
    assert_eq!(map_status(KernelStatus::Idle), ProcessState::Idle);
    assert_eq!(map_status(KernelStatus::Tracing), ProcessState::Unknown);
    assert_eq!(map_status(KernelStatus::Unknown(77)), ProcessState::Unknown);
}

#[test]
fn details_of_missing_process_is_not_found() {
    match process_details(424242, None, no_probes()) {
        Err(e) => assert_eq!(e, DetailError::NotFound(424242)),
        Ok(_) => panic!("expected an error"),
    }
}

#[test]
fn details_from_library_only() {
    let d = match process_details(77, Some(facts()), no_probes()) {
        Ok(d) => d,
        Err(_) => panic!("expected details"),
    };
    assert_eq!(d.pid, 77);
    assert_eq!(d.name, "server");
    assert_eq!(d.status, ProcessState::Sleeping);
    assert_eq!(d.user, None);
    assert_eq!(d.parent_pid, Some(1));
    assert_eq!(d.cwd.as_deref(), Some("/srv/app"));
    assert_eq!(d.cmd_args, vec!["server", "--port", "80"]);
    assert_eq!(d.start_time, Some(1_700_000_000));
    assert_eq!(d.memory_bytes, 4096);
    assert_eq!(d.disk_read_bytes, 10);
    assert_eq!(d.disk_write_bytes, 20);
}

#[test]
fn details_with_native_probes() {
    let probes = NativeProbes {
        usage: Some(KernelUsage { footprint_bytes: 999, disk_read_bytes: 1, disk_write_bytes: 2 }),
        owner_report: Some("root\n".to_string()),
        cwd_report: Some("p77\nfcwd\nn/private/var\n".to_string()),
    };
    let d = match process_details(77, Some(facts()), probes) {
        Ok(d) => d,
        Err(_) => panic!("expected details"),
    };
    assert_eq!(d.user.as_deref(), Some("root"));
    assert_eq!(d.cwd.as_deref(), Some("/private/var"));
    assert_eq!(d.memory_bytes, 999);
    assert_eq!(d.virtual_bytes, 8192);
    assert_eq!(d.disk_read_bytes, 1);
    assert_eq!(d.disk_write_bytes, 2);
}

#[test]
fn cwd_report_pid_forms() {
    let mut list = vec![summary(12, 3), summary(0, 2)];
    apply_cwd_report(&mut list, "p+12\r\nn/a/b\r\np4294967296\nn/c/d\n");
    assert_eq!(list[0].cwd.as_deref(), Some("b"));
    assert_eq!(list[1].cwd, None);
}
