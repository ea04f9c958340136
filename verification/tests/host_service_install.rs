use msu2_display::host::service_install::{
    apply_install, apply_uninstall, detect_init, install_commands, post_uninstall_commands, render_service,
    run_status, status_command, uninstall_commands, InitKind, InitProbe, InstallError, InstallOps, InstallRequest,
    InstallSpec,
};

fn spec() -> InstallSpec {
    InstallSpec {
        binary_path: "/usr/local/bin/miniboard-ipd".to_string(),
        service_args: vec![
            "--interface".to_string(),
            "eth0".to_string(),
            "--dhcp-fail-delay-seconds".to_string(),
            "45".to_string(),
        ],
    }
}

#[derive(Default)]
struct RecordingOps {
    events: Vec<String>,
}

impl InstallOps for RecordingOps {
    fn copy_file(&mut self, from: &str, to: &str, executable: bool) -> Result<(), InstallError> {
        self.events.push(format!("copy:{}:{to}:{executable}", from));
        Ok(())
    }

    fn write_file(&mut self, path: &str, contents: &str, executable: bool) -> Result<(), InstallError> {
        self.events.push(format!("write:{path}:{executable}:{}", contents.contains("miniboard-ipd run")));
        Ok(())
    }

    fn remove_file(&mut self, path: &str) -> Result<(), InstallError> {
        self.events.push(format!("remove:{path}"));
        Ok(())
    }

    fn run(&mut self, command: &[String]) -> Result<(), InstallError> {
        self.events.push(format!("run:{}", command.join(" ")));
        Ok(())
    }
}

struct FailingOps {
    events: Vec<String>,
}

impl InstallOps for FailingOps {
    fn copy_file(&mut self, _from: &str, to: &str, _executable: bool) -> Result<(), InstallError> {
        self.events.push(format!("copy:{to}"));
        Ok(())
    }

    fn write_file(&mut self, path: &str, _contents: &str, _executable: bool) -> Result<(), InstallError> {
        self.events.push(format!("write:{path}"));
        Err(InstallError("disk full".to_string()))
    }

    fn remove_file(&mut self, path: &str) -> Result<(), InstallError> {
        self.events.push(format!("remove:{path}"));
        Ok(())
    }

    fn run(&mut self, command: &[String]) -> Result<(), InstallError> {
        self.events.push(format!("run:{}", command.join(" ")));
        Ok(())
    }
}

fn request(kind: InitKind) -> InstallRequest {
    InstallRequest {
        source_binary_path: "/tmp/miniboard-ipd".to_string(),
        spec: InstallSpec {
            binary_path: "/usr/local/bin/miniboard-ipd".to_string(),
            service_args: vec!["--interface".to_string(), "eth0".to_string()],
        },
        init: kind,
    }
}

#[test]
fn openwrt_detection_wins_before_systemd() {
    let probe = InitProbe {
        has_openwrt_release: true,
        has_procd: true,
        has_systemd_runtime: true,
        has_systemctl: true,
        ..InitProbe::default()
    };
    assert_eq!(detect_init(&probe), InitKind::OpenWrtProcd);
}

#[test]
fn sysv_detection_preserves_update_rc_d_backend() {
    let probe = InitProbe { has_update_rc_d: true, ..InitProbe::default() };
    assert_eq!(detect_init(&probe), InitKind::SysVUpdateRcD);
}

#[test]
fn sysv_detection_preserves_chkconfig_backend() {
    let probe = InitProbe { has_chkconfig: true, ..InitProbe::default() };
    assert_eq!(detect_init(&probe), InitKind::SysVChkconfig);
}

#[test]
fn busybox_needs_init_as_pid1() {
    let probe = InitProbe { pid1_comm: Some("init".to_string()), has_busybox: true, ..InitProbe::default() };
    assert_eq!(detect_init(&probe), InitKind::BusyBox);
    let probe = InitProbe { pid1_comm: Some("sh".to_string()), has_busybox: true, ..InitProbe::default() };
    assert_eq!(detect_init(&probe), InitKind::Unknown);
    let probe = InitProbe { has_systemd_runtime: true, ..InitProbe::default() };
    assert_eq!(detect_init(&probe), InitKind::Unknown);
}

#[test]
fn systemd_unit_embeds_install_arguments() {
    let render = render_service(InitKind::Systemd, &spec());
    assert_eq!(render.path, "/etc/systemd/system/miniboard-ipd.service");
    assert!(render
        .contents
        .contains("ExecStart=/usr/local/bin/miniboard-ipd run --interface eth0 --dhcp-fail-delay-seconds 45"));
    assert!(render.contents.contains("WantedBy=multi-user.target"));
}

#[test]
fn openwrt_script_uses_procd_respawn() {
    let render = render_service(InitKind::OpenWrtProcd, &spec());
    assert_eq!(render.path, "/etc/init.d/miniboard-ipd");
    assert!(render.contents.contains("USE_PROCD=1"));
    assert!(render.contents.contains(
        "procd_set_param command /usr/local/bin/miniboard-ipd run --interface eth0 --dhcp-fail-delay-seconds 45"
    ));
    assert!(render.contents.contains("procd_set_param respawn"));
}

#[test]
fn openrc_script_uses_command_args() {
    let render = render_service(InitKind::OpenRc, &spec());
    assert_eq!(render.path, "/etc/init.d/miniboard-ipd");
    assert!(render.contents.contains("command=\"/usr/local/bin/miniboard-ipd\""));
    assert!(render.contents.contains("command_args=\"run --interface eth0 --dhcp-fail-delay-seconds 45\""));
}

#[test]
fn sysv_script_supports_status_command() {
    let render = render_service(InitKind::SysV, &spec());
    assert!(render.contents.contains("  status)"));
    assert!(render.contents.contains("pgrep -af"));
    assert!(render.contents.contains("Usage: $0 {start|stop|restart|status}"));
}

#[test]
fn template_scripts_exec_the_command_line() {
    let render = render_service(InitKind::RunitTemplate, &spec());
    assert_eq!(render.path, "/etc/sv/miniboard-ipd/run");
    assert_eq!(
        render.contents,
        "#!/bin/sh\nexec /usr/local/bin/miniboard-ipd run --interface eth0 --dhcp-fail-delay-seconds 45\n"
    );
    let bare = InstallSpec { binary_path: "/bin/m".to_string(), service_args: vec![] };
    assert_eq!(render_service(InitKind::Unknown, &bare).contents, "#!/bin/sh\nexec /bin/m run\n");
    assert_eq!(render_service(InitKind::Unknown, &bare).path, "miniboard-ipd.manual");
}

#[test]
fn systemd_install_commands_reload_enable_and_start() {
    assert_eq!(
        install_commands(InitKind::Systemd),
        vec![vec!["systemctl", "daemon-reload"], vec!["systemctl", "enable", "--now", "miniboard-ipd.service"],]
    );
}

#[test]
fn sysv_update_rc_d_install_enables_boot_start_and_starts_service() {
    assert_eq!(
        install_commands(InitKind::SysVUpdateRcD),
        vec![vec!["update-rc.d", "miniboard-ipd", "defaults"], vec!["service", "miniboard-ipd", "start"],]
    );
}

#[test]
fn sysv_chkconfig_install_enables_boot_start_and_starts_service() {
    assert_eq!(
        install_commands(InitKind::SysVChkconfig),
        vec![vec!["chkconfig", "--add", "miniboard-ipd"], vec!["service", "miniboard-ipd", "start"],]
    );
}

#[test]
fn systemd_uninstall_commands_only_stop_and_disable_before_file_removal() {
    assert_eq!(
        uninstall_commands(InitKind::Systemd),
        vec![vec!["systemctl", "disable", "--now", "miniboard-ipd.service"]]
    );
    assert_eq!(post_uninstall_commands(InitKind::Systemd), vec![vec!["systemctl", "daemon-reload"]]);
}

#[test]
fn sysv_update_rc_d_uninstall_stops_service_and_removes_boot_start() {
    assert_eq!(
        uninstall_commands(InitKind::SysVUpdateRcD),
        vec![vec!["service", "miniboard-ipd", "stop"], vec!["update-rc.d", "miniboard-ipd", "remove"],]
    );
}

#[test]
fn sysv_chkconfig_uninstall_stops_service_and_removes_boot_start() {
    assert_eq!(
        uninstall_commands(InitKind::SysVChkconfig),
        vec![vec!["service", "miniboard-ipd", "stop"], vec!["chkconfig", "--del", "miniboard-ipd"],]
    );
}

#[test]
fn apply_systemd_install_copies_binary_writes_unit_and_starts_service() {
    let mut ops = RecordingOps::default();
    apply_install(&request(InitKind::Systemd), &mut ops).unwrap();
    assert_eq!(ops.events[0], "copy:/tmp/miniboard-ipd:/usr/local/bin/miniboard-ipd:true");
    assert_eq!(ops.events[1], "write:/etc/systemd/system/miniboard-ipd.service:false:true");
    assert!(ops.events.contains(&"run:systemctl daemon-reload".to_string()));
    assert!(ops.events.contains(&"run:systemctl enable --now miniboard-ipd.service".to_string()));
}

#[test]
fn apply_openwrt_install_writes_executable_init_script() {
    let mut ops = RecordingOps::default();
    apply_install(&request(InitKind::OpenWrtProcd), &mut ops).unwrap();
    assert!(ops.events.iter().any(|event| event == "write:/etc/init.d/miniboard-ipd:true:true"));
    assert!(ops.events.iter().any(|event| event == "run:/etc/init.d/miniboard-ipd enable"));
}

#[test]
fn uninstall_stops_service_removes_script_and_binary() {
    let mut ops = RecordingOps::default();
    apply_uninstall(InitKind::Systemd, "/usr/local/bin/miniboard-ipd", &mut ops).unwrap();
    assert_eq!(
        ops.events,
        vec![
            "run:systemctl disable --now miniboard-ipd.service",
            "remove:/etc/systemd/system/miniboard-ipd.service",
            "remove:/usr/local/bin/miniboard-ipd",
            "run:systemctl daemon-reload",
        ]
    );
}

#[test]
fn status_runs_init_specific_command() {
    let mut ops = RecordingOps::default();
    run_status(InitKind::Systemd, &mut ops).unwrap();
    assert_eq!(ops.events, vec!["run:systemctl status --no-pager miniboard-ipd.service"]);
    assert_eq!(status_command(InitKind::BusyBox), vec!["pgrep", "-af", "miniboard-ipd"]);
}

#[test]
fn install_stops_at_the_first_failing_step() {
    let mut ops = FailingOps { events: Vec::new() };
    let err = apply_install(&request(InitKind::Systemd), &mut ops).unwrap_err();
    assert_eq!(err, InstallError("disk full".to_string()));
    assert_eq!(
        ops.events,
        vec!["copy:/usr/local/bin/miniboard-ipd", "write:/etc/systemd/system/miniboard-ipd.service"]
    );
}
