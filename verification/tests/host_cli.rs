use msu2_display::host::cli::{help_text, parse_args, version_string, Command, DisplayMode, RunOptions};

#[test]
fn run_uses_defaults_without_config_file() {
    let command = parse_args(&["run"]).unwrap();
    assert_eq!(
        command,
        Command::Run(RunOptions {
            interface: None,
            dhcp_fail_delay_secs: 45,
            debug: false,
            show: DisplayMode::Text,
        })
    );
}

#[test]
fn show_defaults_to_text_mode() {
    let command = parse_args(&["run"]).unwrap();
    let Command::Run(options) = command else {
        panic!("expected run command");
    };
    assert_eq!(options.show, DisplayMode::Text);
}

#[test]
fn show_qr_uses_default_template() {
    let command = parse_args(&["run", "--show", "qr"]).unwrap();
    let Command::Run(options) = command else {
        panic!("expected run command");
    };
    assert_eq!(options.show, DisplayMode::Qr { template: "http://{ip}/".to_string() });
}

#[test]
fn show_qr_template_is_embedded_in_service_args() {
    let command = parse_args(&["install", "--show", "qr:http://{ip}:8080/"]).unwrap();
    let Command::Install(options) = command else {
        panic!("expected install command");
    };
    assert_eq!(options.service_args(), ["--dhcp-fail-delay-seconds", "45", "--show", "qr:http://{ip}:8080/"]);
}

#[test]
fn invalid_show_values_are_rejected() {
    for value in ["text", "qr:", "qr:http://device/", "QR", "ip:http://{ip}/"] {
        let err = parse_args(&["run", "--show", value]).unwrap_err();
        assert!(err.to_string().contains("--show"), "unexpected error for {value:?}: {err:?}");
    }
}

#[test]
fn show_qr_rejects_template_that_is_too_long_for_screen() {
    let value = format!("qr:http://{{ip}}:8080/{}", "a".repeat(80));
    let err = parse_args(&["run", "--show", &value]).unwrap_err();
    assert!(err.to_string().contains("too long"));
}

#[test]
fn install_preserves_interface_and_delay_for_service_command() {
    let command = parse_args(&["install", "--interface", "eth0", "--dhcp-fail-delay-seconds", "90"]).unwrap();
    let Command::Install(options) = command else {
        panic!("expected install command");
    };
    assert_eq!(options.interface.as_deref(), Some("eth0"));
    assert_eq!(options.dhcp_fail_delay_secs, 90);
    assert!(!options.debug);
    assert_eq!(options.show, DisplayMode::Text);
    assert_eq!(options.service_args(), ["--interface", "eth0", "--dhcp-fail-delay-seconds", "90"]);
}

#[test]
fn unknown_option_is_rejected() {
    let err = parse_args(&["run", "--config", "/etc/miniboard-ipd.conf"]).unwrap_err();
    assert!(err.to_string().contains("unknown option --config"));
}

#[test]
fn debug_flag_is_embedded_in_service_args() {
    let command = parse_args(&["install", "--interface", "eth0", "--debug"]).unwrap();
    let Command::Install(options) = command else {
        panic!("expected install command");
    };
    assert!(options.debug);
    assert_eq!(
        options.service_args(),
        ["--interface", "eth0", "--dhcp-fail-delay-seconds", "45", "--debug"]
    );
}

#[test]
fn uninstall_and_status_parse_without_options() {
    assert_eq!(parse_args(&["uninstall"]).unwrap(), Command::Uninstall);
    assert_eq!(parse_args(&["status"]).unwrap(), Command::Status);
}

#[test]
fn install_rejects_invalid_interface_names_for_service_embedding() {
    for value in [
        "",
        "eth 0",
        "eth0/1",
        "eth0:1",
        ".",
        "..",
        "1234567890123456",
        "foo;bar",
        "foo\"bar",
        "foo`bar",
        "$(id)",
        "foo&bar",
        "foo|bar",
        "foo'bar",
    ] {
        let err = parse_args(&["install", "--interface", value]).unwrap_err();
        assert!(err.to_string().contains("invalid interface name"), "unexpected error for {value:?}: {err:?}");
    }
}

#[test]
fn install_accepts_linux_device_style_interface_names() {
    for value in ["eth0", "enp1s0", "wlan0", "br-lan", "eth0.10", "usb0@if2"] {
        let command = parse_args(&["install", "--interface", value]).unwrap();
        let Command::Install(options) = command else {
            panic!("expected install command");
        };
        assert_eq!(options.interface.as_deref(), Some(value));
    }
}

#[test]
fn version_commands_parse_without_options() {
    assert_eq!(parse_args(&["--version"]).unwrap(), Command::Version);
    assert_eq!(parse_args(&["version"]).unwrap(), Command::Version);
    assert_eq!(version_string(), "miniboard-ipd 0.1.6");
}

#[test]
fn help_commands_parse_without_options() {
    assert!(parse_args(&["--help"]).is_ok());
    assert!(parse_args(&["-h"]).is_ok());
    assert!(parse_args(&["help"]).is_ok());
    assert!(parse_args(&["run", "--help"]).is_ok());
    assert!(parse_args(&["install", "-h"]).is_ok());
}

#[test]
fn help_text_lists_commands_and_common_options() {
    let help = help_text();
    assert!(help.contains("Usage:"));
    assert!(help.contains("miniboard-ipd run [options]"));
    assert!(help.contains("run"));
    assert!(help.contains("install"));
    assert!(help.contains("--interface"));
    assert!(help.contains("--show"));
}

#[test]
fn cli_errors_carry_exact_messages() {
    assert_eq!(
        parse_args(&Vec::<&str>::new()).unwrap_err().to_string(),
        "expected command: run, install, uninstall, status, version"
    );
    assert_eq!(parse_args(&["frobnicate"]).unwrap_err().to_string(), "unknown command frobnicate");
    assert_eq!(
        parse_args(&["status", "extra"]).unwrap_err().to_string(),
        "status does not accept argument extra"
    );
    assert_eq!(parse_args(&["run", "--interface"]).unwrap_err().to_string(), "--interface requires a value");
    assert_eq!(
        parse_args(&["run", "--dhcp-fail-delay-seconds", "0"]).unwrap_err().to_string(),
        "--dhcp-fail-delay-seconds must be > 0"
    );
    assert_eq!(
        parse_args(&["run", "--dhcp-fail-delay-seconds", "soon"]).unwrap_err().to_string(),
        "--dhcp-fail-delay-seconds requires an integer"
    );
    assert_eq!(
        parse_args(&["run", "--interface", "a b"]).unwrap_err().to_string(),
        "invalid interface name \"a b\"; must be a non-empty Linux device name under 16 bytes using only A-Z, a-z, 0-9, '_', '-', '.', or '@'"
    );
    assert_eq!(
        parse_args(&["run", "--show", "qr:"]).unwrap_err().to_string(),
        "--show qr:<template> requires a non-empty template"
    );
    assert_eq!(
        parse_args(&["run", "--show", "qr:http://device/"]).unwrap_err().to_string(),
        "--show qr:<template> must contain {ip}"
    );
}

#[test]
fn service_args_parse_back_to_the_same_options() {
    for args in [
        vec!["install"],
        vec!["install", "--interface", "eth0", "--debug"],
        vec!["install", "--dhcp-fail-delay-seconds", "7", "--show", "qr"],
        vec!["install", "--show", "qr:http://{ip}:8080/", "--interface", "br-lan"],
    ] {
        let Command::Install(options) = parse_args(&args).unwrap() else {
            panic!("expected install command");
        };
        let service = options.service_args();
        let mut again: Vec<&str> = vec!["install"];
        again.extend(service.iter().map(String::as_str));
        assert_eq!(parse_args(&again).unwrap(), Command::Install(options.clone()));
        again[0] = "run";
        assert_eq!(parse_args(&again).unwrap(), Command::Run(options));
    }
}

#[test]
fn later_options_override_earlier_ones() {
    let Command::Run(options) = parse_args(&["run", "--show", "qr", "--show", "ip", "--dhcp-fail-delay-seconds", "+12"]).unwrap() else {
        panic!("expected run command");
    };
    assert_eq!(options.show, DisplayMode::Text);
    assert_eq!(options.dhcp_fail_delay_secs, 12);
}
