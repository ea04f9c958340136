//! Installing the daemon as a boot service: which init system runs the
//! machine, the service file for it, and the commands that enable, start,
//! stop and inspect the service.

use vstd::prelude::*;

use crate::seqs::index_of;

use crate::text::{push_str, string_of};

verus! {

#[derive(Debug, Clone, Copy, PartialEq, Eq, Structural)]
pub enum InitKind {
    Systemd,
    OpenRc,
    OpenWrtProcd,
    SysV,
    SysVUpdateRcD,
    SysVChkconfig,
    BusyBox,
    RunitTemplate,
    S6Template,
    DinitTemplate,
    Unknown,
}

/// What was found on the machine.
#[derive(Debug, Clone)]
pub struct InitProbe {
    pub has_openwrt_release: bool,
    pub has_procd: bool,
    pub has_systemd_runtime: bool,
    pub has_systemctl: bool,
    pub has_openrc_runtime: bool,
    pub has_rc_service: bool,
    pub has_update_rc_d: bool,
    pub has_chkconfig: bool,
    pub pid1_comm: Option<String>,
    pub has_busybox: bool,
}

impl Default for InitProbe {
    fn default() -> (r: Self)
        ensures
            !r.has_openwrt_release && !r.has_procd && !r.has_systemd_runtime && !r.has_systemctl,
            !r.has_openrc_runtime && !r.has_rc_service && !r.has_update_rc_d && !r.has_chkconfig,
            r.pid1_comm is None && !r.has_busybox,
    {
        InitProbe {
            has_openwrt_release: false,
            has_procd: false,
            has_systemd_runtime: false,
            has_systemctl: false,
            has_openrc_runtime: false,
            has_rc_service: false,
            has_update_rc_d: false,
            has_chkconfig: false,
            pid1_comm: None,
            has_busybox: false,
        }
    }
}

/// The installed binary and the arguments the service passes to `run`.
#[derive(Debug, Clone, PartialEq, Eq)]
pub struct InstallSpec {
    pub binary_path: String,
    pub service_args: Vec<String>,
}

/// A service file: where it goes and what it says.
#[derive(Debug, Clone, PartialEq, Eq)]
pub struct ServiceRender {
    pub path: String,
    pub contents: String,
}

#[derive(Debug, Clone, PartialEq, Eq)]
pub struct InstallRequest {
    pub source_binary_path: String,
    pub spec: InstallSpec,
    pub init: InitKind,
}

/// A failed file or command operation, with its message.
#[derive(Debug, Clone, PartialEq, Eq)]
pub struct InstallError(pub String);

/// File and process operations of an installation.
pub trait InstallOps {
    fn copy_file(&mut self, from: &str, to: &str, executable: bool) -> Result<(), InstallError>;

    fn write_file(&mut self, path: &str, contents: &str, executable: bool) -> Result<(), InstallError>;

    fn remove_file(&mut self, path: &str) -> Result<(), InstallError>;

    fn run(&mut self, command: &[String]) -> Result<(), InstallError>;
}

/// One operation of an installation, uninstallation or status query.
#[derive(Debug, Clone, PartialEq, Eq)]
pub enum InstallStep {
    CopyFile { from: String, to: String, executable: bool },
    WriteFile { path: String, contents: String, executable: bool },
    RemoveFile { path: String },
    Run(Vec<String>),
}

pub ghost enum StepView {
    CopyFile { from: Seq<char>, to: Seq<char>, executable: bool },
    WriteFile { path: Seq<char>, contents: Seq<char>, executable: bool },
    RemoveFile { path: Seq<char> },
    Run(Seq<Seq<char>>),
}

pub open spec fn strings_view(v: Seq<String>) -> Seq<Seq<char>> {
    v.map_values(|s: String| s@)
}

pub open spec fn commands_view(v: Seq<Vec<String>>) -> Seq<Seq<Seq<char>>> {
    v.map_values(|c: Vec<String>| strings_view(c@))
}

impl View for InstallStep {
    type V = StepView;

    open spec fn view(&self) -> StepView {
        match self {
            InstallStep::CopyFile { from, to, executable } => StepView::CopyFile {
                from: from@,
                to: to@,
                executable: *executable,
            },
            InstallStep::WriteFile { path, contents, executable } => StepView::WriteFile {
                path: path@,
                contents: contents@,
                executable: *executable,
            },
            InstallStep::RemoveFile { path } => StepView::RemoveFile { path: path@ },
            InstallStep::Run(command) => StepView::Run(strings_view(command@)),
        }
    }
}

pub open spec fn steps_view(v: Seq<InstallStep>) -> Seq<StepView> {
    v.map_values(|s: InstallStep| s@)
}

pub open spec fn pid1_is_init(probe: InitProbe) -> bool {
    match probe.pid1_comm {
        Some(c) => c@ == "init"@,
        None => false,
    }
}

/// OpenWrt first, then systemd (running and controllable), OpenRC, the two
/// SysV backends, BusyBox init; otherwise unknown.
pub open spec fn detect_init_spec(probe: InitProbe) -> InitKind {
    if probe.has_openwrt_release || probe.has_procd {
        InitKind::OpenWrtProcd
    } else if probe.has_systemd_runtime && probe.has_systemctl {
        InitKind::Systemd
    } else if probe.has_openrc_runtime || probe.has_rc_service {
        InitKind::OpenRc
    } else if probe.has_update_rc_d {
        InitKind::SysVUpdateRcD
    } else if probe.has_chkconfig {
        InitKind::SysVChkconfig
    } else if pid1_is_init(probe) && probe.has_busybox {
        InitKind::BusyBox
    } else {
        InitKind::Unknown
    }
}

pub fn detect_init(probe: &InitProbe) -> (r: InitKind)
    ensures
        r == detect_init_spec(*probe),
{
    if probe.has_openwrt_release || probe.has_procd {
        InitKind::OpenWrtProcd
    } else if probe.has_systemd_runtime && probe.has_systemctl {
        InitKind::Systemd
    } else if probe.has_openrc_runtime || probe.has_rc_service {
        InitKind::OpenRc
    } else if probe.has_update_rc_d {
        InitKind::SysVUpdateRcD
    } else if probe.has_chkconfig {
        InitKind::SysVChkconfig
    } else {
        let pid1_init = match &probe.pid1_comm {
            Some(c) => crate::text::str_eq(c.as_str(), "init"),
            None => false,
        };
        if pid1_init && probe.has_busybox {
            InitKind::BusyBox
        } else {
            InitKind::Unknown
        }
    }
}

/// Words joined by single spaces.
pub open spec fn join_words(words: Seq<Seq<char>>) -> Seq<char>
    decreases words.len(),
{
    if words.len() == 0 {
        seq![]
    } else if words.len() == 1 {
        words[0]
    } else {
        join_words(words.drop_last()) + " "@ + words.last()
    }
}

fn join_strings(words: &Vec<String>) -> (r: String)
    ensures
        r@ == join_words(strings_view(words@)),
{
    let ghost w = strings_view(words@);
    let mut out = String::new();
    let mut i: usize = 0;
    while i < words.len()
        invariant
            w == strings_view(words@),
            i <= words@.len(),
            out@ == join_words(w.subrange(0, i as int)),
        decreases words@.len() - i,
    {
        assert(w.subrange(0, i + 1).drop_last() =~= w.subrange(0, i as int));
        if i > 0 {
            push_str(&mut out, " ");
        }
        push_str(&mut out, words[i].as_str());
        proof {
            if i == 0 {
                assert(out@ =~= join_words(w.subrange(0, 1)));
            }
        }
        i = i + 1;
    }
    assert(w.subrange(0, words@.len() as int) =~= w);
    out
}

/// The words of the service's command: the binary, `run`, then the arguments.
pub open spec fn command_words(spec: (Seq<char>, Seq<Seq<char>>)) -> Seq<Seq<char>> {
    seq![spec.0, "run"@] + spec.1
}

pub open spec fn command_line_spec(spec: (Seq<char>, Seq<Seq<char>>)) -> Seq<char> {
    join_words(command_words(spec))
}

pub open spec fn command_args_spec(spec: (Seq<char>, Seq<Seq<char>>)) -> Seq<char> {
    join_words(seq!["run"@] + spec.1)
}

pub open spec fn install_spec_view(spec: InstallSpec) -> (Seq<char>, Seq<Seq<char>>) {
    (spec.binary_path@, strings_view(spec.service_args@))
}

fn copy_strings(v: &Vec<String>) -> (r: Vec<String>)
    ensures
        strings_view(r@) == strings_view(v@),
{
    let mut out: Vec<String> = Vec::new();
    let mut i: usize = 0;
    while i < v.len()
        invariant
            i <= v@.len(),
            out@.len() == i,
            forall|k: int| 0 <= k < i ==> (#[trigger] out@[k])@ == v@[k]@,
        decreases v@.len() - i,
    {
        let s = string_of(v[i].as_str());
        out.push(s);
        i = i + 1;
    }
    assert(strings_view(out@) =~= strings_view(v@));
    out
}

fn command_line(spec: &InstallSpec) -> (r: String)
    ensures
        r@ == command_line_spec(install_spec_view(*spec)),
{
    let mut parts: Vec<String> = Vec::new();
    parts.push(string_of(spec.binary_path.as_str()));
    parts.push(string_of("run"));
    let mut rest = copy_strings(&spec.service_args);
    parts.append(&mut rest);
    assert(strings_view(parts@) =~= command_words(install_spec_view(*spec)));
    join_strings(&parts)
}

fn command_args(spec: &InstallSpec) -> (r: String)
    ensures
        r@ == command_args_spec(install_spec_view(*spec)),
{
    let mut parts: Vec<String> = Vec::new();
    parts.push(string_of("run"));
    let mut rest = copy_strings(&spec.service_args);
    parts.append(&mut rest);
    assert(strings_view(parts@) =~= seq!["run"@] + install_spec_view(*spec).1);
    join_strings(&parts)
}

pub open spec fn systemd_unit(cl: Seq<char>) -> Seq<char> {
    "[Unit]\nDescription=Miniboard IP display daemon\nAfter=network.target\n\n[Service]\nType=simple\nExecStart="@
        + cl + "\nRestart=always\nRestartSec=2\n\n[Install]\nWantedBy=multi-user.target\n"@
}

pub open spec fn openwrt_script(cl: Seq<char>) -> Seq<char> {
    "#!/bin/sh /etc/rc.common\nSTART=95\nUSE_PROCD=1\n\nstart_service() {\n\tprocd_open_instance\n\tprocd_set_param command "@
        + cl + "\n\tprocd_set_param respawn\n\tprocd_close_instance\n}\n"@
}

pub open spec fn openrc_script(binary: Seq<char>, args: Seq<char>) -> Seq<char> {
    "#!/sbin/openrc-run\ncommand=\""@ + binary + "\"\ncommand_args=\""@ + args
        + "\"\ncommand_background=true\npidfile=\"/run/miniboard-ipd.pid\"\ndepend() {\n\tneed localmount\n\tafter net\n}\n"@
}

pub open spec fn sysv_script(cl: Seq<char>, binary: Seq<char>) -> Seq<char> {
    "#!/bin/sh\n### BEGIN INIT INFO\n# Provides: miniboard-ipd\n# Required-Start: $local_fs $network\n# Required-Stop: $local_fs\n# Default-Start: 2 3 4 5\n# Default-Stop: 0 1 6\n# Short-Description: Miniboard IP display daemon\n### END INIT INFO\ncase \"$1\" in\n  start)\n    "@
        + cl + " &\n    ;;\n  stop)\n    pkill -f \""@ + binary
        + " run\" || true\n    ;;\n  restart)\n    \"$0\" stop\n    \"$0\" start\n    ;;\n  status)\n    pgrep -af \""@
        + binary
        + " run\"\n    ;;\n  *)\n    echo \"Usage: $0 {start|stop|restart|status}\"\n    exit 1\n    ;;\nesac\n"@
}

pub open spec fn busybox_script(cl: Seq<char>, binary: Seq<char>) -> Seq<char> {
    "#!/bin/sh\ncase \"$1\" in\n  start) "@ + cl + " & ;;\n  stop) pkill -f \""@ + binary
        + " run\" || true ;;\nesac\n"@
}

pub open spec fn template_script(cl: Seq<char>) -> Seq<char> {
    "#!/bin/sh\nexec "@ + cl + "\n"@
}

/// Where the service file of an init system goes.
pub open spec fn service_path(kind: InitKind) -> Seq<char> {
    match kind {
        InitKind::Systemd => "/etc/systemd/system/miniboard-ipd.service"@,
        InitKind::OpenWrtProcd | InitKind::OpenRc | InitKind::SysV | InitKind::SysVUpdateRcD
        | InitKind::SysVChkconfig => "/etc/init.d/miniboard-ipd"@,
        InitKind::BusyBox => "/etc/init.d/S99miniboard-ipd"@,
        InitKind::RunitTemplate => "/etc/sv/miniboard-ipd/run"@,
        InitKind::S6Template => "s6-miniboard-ipd-run"@,
        InitKind::DinitTemplate => "miniboard-ipd.dinit"@,
        InitKind::Unknown => "miniboard-ipd.manual"@,
    }
}

/// What the service file of an init system says.
pub open spec fn service_contents(kind: InitKind, spec: (Seq<char>, Seq<Seq<char>>)) -> Seq<char> {
    let cl = command_line_spec(spec);
    match kind {
        InitKind::Systemd => systemd_unit(cl),
        InitKind::OpenWrtProcd => openwrt_script(cl),
        InitKind::OpenRc => openrc_script(spec.0, command_args_spec(spec)),
        InitKind::SysV | InitKind::SysVUpdateRcD | InitKind::SysVChkconfig => sysv_script(cl, spec.0),
        InitKind::BusyBox => busybox_script(cl, spec.0),
        _ => template_script(cl),
    }
}

fn render_systemd(spec: &InstallSpec) -> (r: ServiceRender)
    ensures
        r.path@ == service_path(InitKind::Systemd),
        r.contents@ == service_contents(InitKind::Systemd, install_spec_view(*spec)),
{
    let cl = command_line(spec);
    let mut c = string_of(
        "[Unit]\nDescription=Miniboard IP display daemon\nAfter=network.target\n\n[Service]\nType=simple\nExecStart=",
    );
    push_str(&mut c, cl.as_str());
    push_str(&mut c, "\nRestart=always\nRestartSec=2\n\n[Install]\nWantedBy=multi-user.target\n");
    ServiceRender { path: string_of("/etc/systemd/system/miniboard-ipd.service"), contents: c }
}

fn render_openwrt(spec: &InstallSpec) -> (r: ServiceRender)
    ensures
        r.path@ == service_path(InitKind::OpenWrtProcd),
        r.contents@ == service_contents(InitKind::OpenWrtProcd, install_spec_view(*spec)),
{
    let cl = command_line(spec);
    let mut c = string_of(
        "#!/bin/sh /etc/rc.common\nSTART=95\nUSE_PROCD=1\n\nstart_service() {\n\tprocd_open_instance\n\tprocd_set_param command ",
    );
    push_str(&mut c, cl.as_str());
    push_str(&mut c, "\n\tprocd_set_param respawn\n\tprocd_close_instance\n}\n");
    ServiceRender { path: string_of("/etc/init.d/miniboard-ipd"), contents: c }
}

fn render_openrc(spec: &InstallSpec) -> (r: ServiceRender)
    ensures
        r.path@ == service_path(InitKind::OpenRc),
        r.contents@ == service_contents(InitKind::OpenRc, install_spec_view(*spec)),
{
    let args = command_args(spec);
    let mut c = string_of("#!/sbin/openrc-run\ncommand=\"");
    push_str(&mut c, spec.binary_path.as_str());
    push_str(&mut c, "\"\ncommand_args=\"");
    push_str(&mut c, args.as_str());
    push_str(
        &mut c,
        "\"\ncommand_background=true\npidfile=\"/run/miniboard-ipd.pid\"\ndepend() {\n\tneed localmount\n\tafter net\n}\n",
    );
    ServiceRender { path: string_of("/etc/init.d/miniboard-ipd"), contents: c }
}

fn render_sysv(spec: &InstallSpec, kind: InitKind) -> (r: ServiceRender)
    requires
        kind == InitKind::SysV || kind == InitKind::SysVUpdateRcD || kind == InitKind::SysVChkconfig,
    ensures
        r.path@ == service_path(kind),
        r.contents@ == service_contents(kind, install_spec_view(*spec)),
{
    let cl = command_line(spec);
    let mut c = string_of(
        "#!/bin/sh\n### BEGIN INIT INFO\n# Provides: miniboard-ipd\n# Required-Start: $local_fs $network\n# Required-Stop: $local_fs\n# Default-Start: 2 3 4 5\n# Default-Stop: 0 1 6\n# Short-Description: Miniboard IP display daemon\n### END INIT INFO\ncase \"$1\" in\n  start)\n    ",
    );
    push_str(&mut c, cl.as_str());
    push_str(&mut c, " &\n    ;;\n  stop)\n    pkill -f \"");
    push_str(&mut c, spec.binary_path.as_str());
    push_str(
        &mut c,
        " run\" || true\n    ;;\n  restart)\n    \"$0\" stop\n    \"$0\" start\n    ;;\n  status)\n    pgrep -af \"",
    );
    push_str(&mut c, spec.binary_path.as_str());
    push_str(
        &mut c,
        " run\"\n    ;;\n  *)\n    echo \"Usage: $0 {start|stop|restart|status}\"\n    exit 1\n    ;;\nesac\n",
    );
    ServiceRender { path: string_of("/etc/init.d/miniboard-ipd"), contents: c }
}

fn render_busybox(spec: &InstallSpec) -> (r: ServiceRender)
    ensures
        r.path@ == service_path(InitKind::BusyBox),
        r.contents@ == service_contents(InitKind::BusyBox, install_spec_view(*spec)),
{
    let cl = command_line(spec);
    let mut c = string_of("#!/bin/sh\ncase \"$1\" in\n  start) ");
    push_str(&mut c, cl.as_str());
    push_str(&mut c, " & ;;\n  stop) pkill -f \"");
    push_str(&mut c, spec.binary_path.as_str());
    push_str(&mut c, " run\" || true ;;\nesac\n");
    ServiceRender { path: string_of("/etc/init.d/S99miniboard-ipd"), contents: c }
}

fn render_template(path: &str, spec: &InstallSpec, kind: InitKind) -> (r: ServiceRender)
    requires
        path@ == service_path(kind),
        kind == InitKind::RunitTemplate || kind == InitKind::S6Template || kind == InitKind::DinitTemplate
            || kind == InitKind::Unknown,
    ensures
        r.path@ == service_path(kind),
        r.contents@ == service_contents(kind, install_spec_view(*spec)),
{
    let cl = command_line(spec);
    let mut c = string_of("#!/bin/sh\nexec ");
    push_str(&mut c, cl.as_str());
    push_str(&mut c, "\n");
    ServiceRender { path: string_of(path), contents: c }
}

/// The service file for an init system.
pub fn render_service(kind: InitKind, spec: &InstallSpec) -> (r: ServiceRender)
    ensures
        r.path@ == service_path(kind),
        r.contents@ == service_contents(kind, install_spec_view(*spec)),
{
    match kind {
        InitKind::Systemd => render_systemd(spec),
        InitKind::OpenWrtProcd => render_openwrt(spec),
        InitKind::OpenRc => render_openrc(spec),
        InitKind::SysV | InitKind::SysVUpdateRcD | InitKind::SysVChkconfig => render_sysv(spec, kind),
        InitKind::BusyBox => render_busybox(spec),
        InitKind::RunitTemplate => render_template("/etc/sv/miniboard-ipd/run", spec, kind),
        InitKind::S6Template => render_template("s6-miniboard-ipd-run", spec, kind),
        InitKind::DinitTemplate => render_template("miniboard-ipd.dinit", spec, kind),
        InitKind::Unknown => render_template("miniboard-ipd.manual", spec, kind),
    }
}


fn w2(a: &str, b: &str) -> (r: Vec<String>)
    ensures
        strings_view(r@) == seq![a@, b@],
{
    let mut v = Vec::new();
    v.push(string_of(a));
    v.push(string_of(b));
    assert(strings_view(v@) =~= seq![a@, b@]);
    v
}

fn w3(a: &str, b: &str, c: &str) -> (r: Vec<String>)
    ensures
        strings_view(r@) == seq![a@, b@, c@],
{
    let mut v = Vec::new();
    v.push(string_of(a));
    v.push(string_of(b));
    v.push(string_of(c));
    assert(strings_view(v@) =~= seq![a@, b@, c@]);
    v
}

fn w4(a: &str, b: &str, c: &str, d: &str) -> (r: Vec<String>)
    ensures
        strings_view(r@) == seq![a@, b@, c@, d@],
{
    let mut v = Vec::new();
    v.push(string_of(a));
    v.push(string_of(b));
    v.push(string_of(c));
    v.push(string_of(d));
    assert(strings_view(v@) =~= seq![a@, b@, c@, d@]);
    v
}

fn one_command(a: Vec<String>) -> (r: Vec<Vec<String>>)
    ensures
        commands_view(r@) == seq![strings_view(a@)],
{
    let ghost va = strings_view(a@);
    let mut v = Vec::new();
    v.push(a);
    assert(commands_view(v@) =~= seq![va]);
    v
}

fn two_commands(a: Vec<String>, b: Vec<String>) -> (r: Vec<Vec<String>>)
    ensures
        commands_view(r@) == seq![strings_view(a@), strings_view(b@)],
{
    let ghost va = strings_view(a@);
    let ghost vb = strings_view(b@);
    let mut v = Vec::new();
    v.push(a);
    v.push(b);
    assert(commands_view(v@) =~= seq![va, vb]);
    v
}

/// What enables and starts the service after its files are in place.
pub open spec fn install_commands_spec(kind: InitKind) -> Seq<Seq<Seq<char>>> {
    match kind {
        InitKind::Systemd => seq![
            seq!["systemctl"@, "daemon-reload"@],
            seq!["systemctl"@, "enable"@, "--now"@, "miniboard-ipd.service"@],
        ],
        InitKind::OpenRc => seq![
            seq!["rc-update"@, "add"@, "miniboard-ipd"@, "default"@],
            seq!["rc-service"@, "miniboard-ipd"@, "start"@],
        ],
        InitKind::OpenWrtProcd => seq![
            seq!["/etc/init.d/miniboard-ipd"@, "enable"@],
            seq!["/etc/init.d/miniboard-ipd"@, "start"@],
        ],
        InitKind::SysV => seq![seq!["service"@, "miniboard-ipd"@, "start"@]],
        InitKind::SysVUpdateRcD => seq![
            seq!["update-rc.d"@, "miniboard-ipd"@, "defaults"@],
            seq!["service"@, "miniboard-ipd"@, "start"@],
        ],
        InitKind::SysVChkconfig => seq![
            seq!["chkconfig"@, "--add"@, "miniboard-ipd"@],
            seq!["service"@, "miniboard-ipd"@, "start"@],
        ],
        InitKind::BusyBox => seq![seq!["/etc/init.d/S99miniboard-ipd"@, "start"@]],
        _ => seq![],
    }
}

/// What stops and disables the service before its files are removed.
pub open spec fn uninstall_commands_spec(kind: InitKind) -> Seq<Seq<Seq<char>>> {
    match kind {
        InitKind::Systemd => seq![seq!["systemctl"@, "disable"@, "--now"@, "miniboard-ipd.service"@]],
        InitKind::OpenRc => seq![
            seq!["rc-service"@, "miniboard-ipd"@, "stop"@],
            seq!["rc-update"@, "del"@, "miniboard-ipd"@, "default"@],
        ],
        InitKind::OpenWrtProcd => seq![
            seq!["/etc/init.d/miniboard-ipd"@, "stop"@],
            seq!["/etc/init.d/miniboard-ipd"@, "disable"@],
        ],
        InitKind::SysV => seq![seq!["service"@, "miniboard-ipd"@, "stop"@]],
        InitKind::SysVUpdateRcD => seq![
            seq!["service"@, "miniboard-ipd"@, "stop"@],
            seq!["update-rc.d"@, "miniboard-ipd"@, "remove"@],
        ],
        InitKind::SysVChkconfig => seq![
            seq!["service"@, "miniboard-ipd"@, "stop"@],
            seq!["chkconfig"@, "--del"@, "miniboard-ipd"@],
        ],
        InitKind::BusyBox => seq![seq!["/etc/init.d/S99miniboard-ipd"@, "stop"@]],
        _ => seq![],
    }
}

/// What runs once the files are gone.
pub open spec fn post_uninstall_commands_spec(kind: InitKind) -> Seq<Seq<Seq<char>>> {
    match kind {
        InitKind::Systemd => seq![seq!["systemctl"@, "daemon-reload"@]],
        _ => seq![],
    }
}

/// What shows whether the service runs.
pub open spec fn status_command_spec(kind: InitKind) -> Seq<Seq<char>> {
    match kind {
        InitKind::Systemd => seq!["systemctl"@, "status"@, "--no-pager"@, "miniboard-ipd.service"@],
        InitKind::OpenRc => seq!["rc-service"@, "miniboard-ipd"@, "status"@],
        InitKind::OpenWrtProcd => seq!["/etc/init.d/miniboard-ipd"@, "status"@],
        InitKind::SysV | InitKind::SysVUpdateRcD | InitKind::SysVChkconfig => seq![
            "service"@,
            "miniboard-ipd"@,
            "status"@,
        ],
        _ => seq!["pgrep"@, "-af"@, "miniboard-ipd"@],
    }
}

pub fn install_commands(kind: InitKind) -> (r: Vec<Vec<String>>)
    ensures
        commands_view(r@) == install_commands_spec(kind),
{
    match kind {
        InitKind::Systemd => two_commands(
            w2("systemctl", "daemon-reload"),
            w4("systemctl", "enable", "--now", "miniboard-ipd.service"),
        ),
        InitKind::OpenRc => two_commands(
            w4("rc-update", "add", "miniboard-ipd", "default"),
            w3("rc-service", "miniboard-ipd", "start"),
        ),
        InitKind::OpenWrtProcd => two_commands(
            w2("/etc/init.d/miniboard-ipd", "enable"),
            w2("/etc/init.d/miniboard-ipd", "start"),
        ),
        InitKind::SysV => one_command(w3("service", "miniboard-ipd", "start")),
        InitKind::SysVUpdateRcD => two_commands(
            w3("update-rc.d", "miniboard-ipd", "defaults"),
            w3("service", "miniboard-ipd", "start"),
        ),
        InitKind::SysVChkconfig => two_commands(
            w3("chkconfig", "--add", "miniboard-ipd"),
            w3("service", "miniboard-ipd", "start"),
        ),
        InitKind::BusyBox => one_command(w2("/etc/init.d/S99miniboard-ipd", "start")),
        _ => {
            let v: Vec<Vec<String>> = Vec::new();
            assert(commands_view(v@) =~= seq![]);
            v
        },
    }
}

pub fn uninstall_commands(kind: InitKind) -> (r: Vec<Vec<String>>)
    ensures
        commands_view(r@) == uninstall_commands_spec(kind),
{
    match kind {
        InitKind::Systemd => one_command(w4("systemctl", "disable", "--now", "miniboard-ipd.service")),
        InitKind::OpenRc => two_commands(
            w3("rc-service", "miniboard-ipd", "stop"),
            w4("rc-update", "del", "miniboard-ipd", "default"),
        ),
        InitKind::OpenWrtProcd => two_commands(
            w2("/etc/init.d/miniboard-ipd", "stop"),
            w2("/etc/init.d/miniboard-ipd", "disable"),
        ),
        InitKind::SysV => one_command(w3("service", "miniboard-ipd", "stop")),
        InitKind::SysVUpdateRcD => two_commands(
            w3("service", "miniboard-ipd", "stop"),
            w3("update-rc.d", "miniboard-ipd", "remove"),
        ),
        InitKind::SysVChkconfig => two_commands(
            w3("service", "miniboard-ipd", "stop"),
            w3("chkconfig", "--del", "miniboard-ipd"),
        ),
        InitKind::BusyBox => one_command(w2("/etc/init.d/S99miniboard-ipd", "stop")),
        _ => {
            let v: Vec<Vec<String>> = Vec::new();
            assert(commands_view(v@) =~= seq![]);
            v
        },
    }
}

pub fn post_uninstall_commands(kind: InitKind) -> (r: Vec<Vec<String>>)
    ensures
        commands_view(r@) == post_uninstall_commands_spec(kind),
{
    match kind {
        InitKind::Systemd => one_command(w2("systemctl", "daemon-reload")),
        _ => {
            let v: Vec<Vec<String>> = Vec::new();
            assert(commands_view(v@) =~= seq![]);
            v
        },
    }
}

pub fn status_command(kind: InitKind) -> (r: Vec<String>)
    ensures
        strings_view(r@) == status_command_spec(kind),
{
    match kind {
        InitKind::Systemd => w4("systemctl", "status", "--no-pager", "miniboard-ipd.service"),
        InitKind::OpenRc => w3("rc-service", "miniboard-ipd", "status"),
        InitKind::OpenWrtProcd => w2("/etc/init.d/miniboard-ipd", "status"),
        InitKind::SysV | InitKind::SysVUpdateRcD | InitKind::SysVChkconfig => w3("service", "miniboard-ipd", "status"),
        _ => w3("pgrep", "-af", "miniboard-ipd"),
    }
}

/// Init scripts must be executable; unit files and templates need not be.
pub open spec fn needs_executable_spec(kind: InitKind) -> bool {
    match kind {
        InitKind::OpenRc | InitKind::OpenWrtProcd | InitKind::SysV | InitKind::SysVUpdateRcD
        | InitKind::SysVChkconfig | InitKind::BusyBox => true,
        _ => false,
    }
}

fn service_needs_executable(kind: InitKind) -> (r: bool)
    ensures
        r == needs_executable_spec(kind),
{
    match kind {
        InitKind::OpenRc | InitKind::OpenWrtProcd | InitKind::SysV | InitKind::SysVUpdateRcD
        | InitKind::SysVChkconfig | InitKind::BusyBox => true,
        _ => false,
    }
}

pub open spec fn run_steps(commands: Seq<Seq<Seq<char>>>) -> Seq<StepView> {
    commands.map_values(|c: Seq<Seq<char>>| StepView::Run(c))
}

/// Copy the binary, write the service file, then enable and start it.
pub open spec fn install_steps_spec(
    source: Seq<char>,
    spec: (Seq<char>, Seq<Seq<char>>),
    kind: InitKind,
) -> Seq<StepView> {
    seq![
        StepView::CopyFile { from: source, to: spec.0, executable: true },
        StepView::WriteFile {
            path: service_path(kind),
            contents: service_contents(kind, spec),
            executable: needs_executable_spec(kind),
        },
    ] + run_steps(install_commands_spec(kind))
}

/// Stop and disable, remove the service file and the binary, then clean up.
pub open spec fn uninstall_steps_spec(kind: InitKind, binary_path: Seq<char>) -> Seq<StepView> {
    run_steps(uninstall_commands_spec(kind)) + seq![
        StepView::RemoveFile { path: service_path(kind) },
        StepView::RemoveFile { path: binary_path },
    ] + run_steps(post_uninstall_commands_spec(kind))
}

fn push_runs(steps: &mut Vec<InstallStep>, commands: Vec<Vec<String>>)
    ensures
        steps_view(final(steps)@) == steps_view(old(steps)@) + run_steps(commands_view(commands@)),
{
    let ghost start = steps_view(steps@);
    let ghost cmds = commands_view(commands@);
    let mut rest = commands;
    let n = rest.len();
    let mut k: usize = 0;
    while k < n
        invariant
            n == cmds.len(),
            k <= n,
            steps_view(steps@) == start + run_steps(cmds.subrange(0, k as int)),
            commands_view(rest@) == cmds.subrange(k as int, n as int),
            rest@.len() == n - k,
        decreases n - k,
    {
        let ghost before = rest@;
        let c = rest.remove(0);
        proof {
            assert(rest@ =~= before.subrange(1, before.len() as int));
            assert forall|j: int| 0 <= j < rest@.len() implies commands_view(rest@)[j] == cmds.subrange(k + 1, n as int)[j] by {
                assert(commands_view(before)[j + 1] == cmds.subrange(k as int, n as int)[j + 1]);
            }
            assert(commands_view(rest@) =~= cmds.subrange(k + 1, n as int));
            assert(commands_view(before)[0] == cmds[k as int]);
        }
        let ghost cv = strings_view(c@);
        assert(cv == cmds[k as int]);
        let ghost prev = steps@;
        steps.push(InstallStep::Run(c));
        assert(steps_view(steps@) =~= steps_view(prev).push(StepView::Run(cv)));
        assert(run_steps(cmds.subrange(0, k + 1)) =~= run_steps(cmds.subrange(0, k as int)).push(
            StepView::Run(cv),
        ));
        assert(steps_view(steps@) =~= start + run_steps(cmds.subrange(0, k + 1)));
        k = k + 1;
    }
    assert(cmds.subrange(0, n as int) =~= cmds);
}

/// The operations of an installation, in order.
pub fn install_steps(request: &InstallRequest) -> (r: Vec<InstallStep>)
    ensures
        steps_view(r@) == install_steps_spec(
            request.source_binary_path@,
            install_spec_view(request.spec),
            request.init,
        ),
{
    let rendered = render_service(request.init, &request.spec);
    let mut steps: Vec<InstallStep> = Vec::new();
    steps.push(
        InstallStep::CopyFile {
            from: string_of(request.source_binary_path.as_str()),
            to: string_of(request.spec.binary_path.as_str()),
            executable: true,
        },
    );
    steps.push(
        InstallStep::WriteFile {
            path: rendered.path,
            contents: rendered.contents,
            executable: service_needs_executable(request.init),
        },
    );
    push_runs(&mut steps, install_commands(request.init));
    steps
}

/// The operations of an uninstallation, in order.
pub fn uninstall_steps(kind: InitKind, binary_path: &str) -> (r: Vec<InstallStep>)
    ensures
        steps_view(r@) == uninstall_steps_spec(kind, binary_path@),
{
    let mut steps: Vec<InstallStep> = Vec::new();
    push_runs(&mut steps, uninstall_commands(kind));
    let spec = InstallSpec { binary_path: string_of(binary_path), service_args: Vec::new() };
    let rendered = render_service(kind, &spec);
    steps.push(InstallStep::RemoveFile { path: rendered.path });
    steps.push(InstallStep::RemoveFile { path: string_of(binary_path) });
    push_runs(&mut steps, post_uninstall_commands(kind));
    steps
}

/// Performing `steps` in order, stopping at the first failure: the results
/// of the steps performed, all but the last successful, and the outcome.
pub open spec fn steps_outcome(
    steps: Seq<StepView>,
    results: Seq<Result<(), InstallError>>,
    r: Result<(), InstallError>,
) -> bool {
    &&& results.len() <= steps.len()
    &&& forall|i: int| 0 <= i < results.len() - 1 ==> (#[trigger] results[i]) is Ok
    &&& r is Ok <==> (results.len() == steps.len() && (results.len() == 0 || results.last() is Ok))
    &&& r is Err ==> r == results.last()
}

/// Performs steps in order and stops at the first one that fails: one chain
/// of calls on the operations, from their state before (`st[0]`) to their
/// state after, where call `k` performs step `k` with result `results[k]`.
pub fn apply_steps<O: InstallOps>(steps: &Vec<InstallStep>, ops: &mut O) -> (r: Result<(), InstallError>)
    ensures
        exists|st: Seq<O>, results: Seq<Result<(), InstallError>>|
            #![trigger st.len(), results.len()]
            {
                let sv = steps_view(steps@);
                &&& st.len() == results.len() + 1
                &&& st[0] == *old(ops)
                &&& st.last() == *final(ops)
                &&& steps_outcome(sv, results, r)
                &&& forall|k: int|
                    #![trigger index_of(results, k)]
                    index_of(results, k) ==> match sv[k] {
                        StepView::CopyFile { from, to, executable } => exists|o: &mut O, f: &str, t: &str, x: bool|
                            #[trigger] call_ensures(O::copy_file, (o, f, t, x), results[k]) && *o == st[k] && *final(o)
                                == st[k + 1] && f@ == from && t@ == to && x == executable,
                        StepView::WriteFile { path, contents, executable } => exists|
                            o: &mut O,
                            f: &str,
                            c: &str,
                            x: bool,
                        |
                            #[trigger] call_ensures(O::write_file, (o, f, c, x), results[k]) && *o == st[k] && *final(o)
                                == st[k + 1] && f@ == path && c@ == contents && x == executable,
                        StepView::RemoveFile { path } => exists|o: &mut O, f: &str|
                            #[trigger] call_ensures(O::remove_file, (o, f), results[k]) && *o == st[k] && *final(o)
                                == st[k + 1] && f@ == path,
                        StepView::Run(command) => exists|o: &mut O, c: &[String]|
                            #[trigger] call_ensures(O::run, (o, c), results[k]) && *o == st[k] && *final(o) == st[k
                                + 1] && strings_view(c@) == command,
                    }
            },
{
    let ghost sv = steps_view(steps@);
    let ghost mut results: Seq<Result<(), InstallError>> = Seq::empty();
    let ghost mut st: Seq<O> = seq![*ops];
    let mut i: usize = 0;
    while i < steps.len()
        invariant
            i <= steps@.len(),
            sv == steps_view(steps@),
            results.len() == i,
            st.len() == results.len() + 1,
            st[0] == *old(ops),
            st.last() == *ops,
            forall|k: int|
                #![trigger index_of(results, k)]
                index_of(results, k) ==> match sv[k] {
                        StepView::CopyFile { from, to, executable } => exists|o: &mut O, f: &str, t: &str, x: bool|
                            #[trigger] call_ensures(O::copy_file, (o, f, t, x), results[k]) && *o == st[k] && *final(o)
                                == st[k + 1] && f@ == from && t@ == to && x == executable,
                        StepView::WriteFile { path, contents, executable } => exists|
                            o: &mut O,
                            f: &str,
                            c: &str,
                            x: bool,
                        |
                            #[trigger] call_ensures(O::write_file, (o, f, c, x), results[k]) && *o == st[k] && *final(o)
                                == st[k + 1] && f@ == path && c@ == contents && x == executable,
                        StepView::RemoveFile { path } => exists|o: &mut O, f: &str|
                            #[trigger] call_ensures(O::remove_file, (o, f), results[k]) && *o == st[k] && *final(o)
                                == st[k + 1] && f@ == path,
                        StepView::Run(command) => exists|o: &mut O, c: &[String]|
                            #[trigger] call_ensures(O::run, (o, c), results[k]) && *o == st[k] && *final(o) == st[k
                                + 1] && strings_view(c@) == command,
                    },
            forall|k: int| 0 <= k < results.len() ==> (#[trigger] results[k]) is Ok,
        decreases steps@.len() - i,
    {
        assert(sv[i as int] == steps@[i as int]@);
        let ghost before = *ops;
        let res = match &steps[i] {
            InstallStep::CopyFile { from, to, executable } => {
                let res = ops.copy_file(from.as_str(), to.as_str(), *executable);
                assert(exists|o: &mut O, f: &str, t: &str, x: bool|
                    #[trigger] call_ensures(O::copy_file, (o, f, t, x), res) && *o == before && *final(o) == *ops
                        && f@ == from@ && t@ == to@ && x == *executable);
                res
            },
            InstallStep::WriteFile { path, contents, executable } => {
                let res = ops.write_file(path.as_str(), contents.as_str(), *executable);
                assert(exists|o: &mut O, f: &str, c: &str, x: bool|
                    #[trigger] call_ensures(O::write_file, (o, f, c, x), res) && *o == before && *final(o) == *ops
                        && f@ == path@ && c@ == contents@ && x == *executable);
                res
            },
            InstallStep::RemoveFile { path } => {
                let res = ops.remove_file(path.as_str());
                assert(exists|o: &mut O, f: &str|
                    #[trigger] call_ensures(O::remove_file, (o, f), res) && *o == before && *final(o) == *ops && f@
                        == path@);
                res
            },
            InstallStep::Run(command) => {
                let res = ops.run(command.as_slice());
                assert(exists|o: &mut O, c: &[String]|
                    #[trigger] call_ensures(O::run, (o, c), res) && *o == before && *final(o) == *ops && strings_view(
                        c@,
                    ) == strings_view(command@));
                res
            },
        };
        proof {
            let r0 = results;
            let st0 = st;
            results = results.push(res);
            st = st.push(*ops);
            assert forall|k: int|
                #![trigger index_of(results, k)]
                index_of(results, k) implies match sv[k] {
                        StepView::CopyFile { from, to, executable } => exists|o: &mut O, f: &str, t: &str, x: bool|
                            #[trigger] call_ensures(O::copy_file, (o, f, t, x), results[k]) && *o == st[k] && *final(o)
                                == st[k + 1] && f@ == from && t@ == to && x == executable,
                        StepView::WriteFile { path, contents, executable } => exists|
                            o: &mut O,
                            f: &str,
                            c: &str,
                            x: bool,
                        |
                            #[trigger] call_ensures(O::write_file, (o, f, c, x), results[k]) && *o == st[k] && *final(o)
                                == st[k + 1] && f@ == path && c@ == contents && x == executable,
                        StepView::RemoveFile { path } => exists|o: &mut O, f: &str|
                            #[trigger] call_ensures(O::remove_file, (o, f), results[k]) && *o == st[k] && *final(o)
                                == st[k + 1] && f@ == path,
                        StepView::Run(command) => exists|o: &mut O, c: &[String]|
                            #[trigger] call_ensures(O::run, (o, c), results[k]) && *o == st[k] && *final(o) == st[k
                                + 1] && strings_view(c@) == command,
                    } by {
                if k < r0.len() {
                    assert(index_of(r0, k));
                    assert(results[k] == r0[k] && st[k] == st0[k] && st[k + 1] == st0[k + 1]);
                } else {
                    assert(results[k] == res && st[k] == before && st[k + 1] == *ops);
                }
            }
            assert forall|k: int| 0 <= k < results.len() - 1 implies (#[trigger] results[k]) is Ok by {
                assert(results[k] == r0[k]);
            }
        }
        if let Err(e) = res {
            assert(steps_outcome(sv, results, Err(e)));
            assert(st.len() == results.len() + 1 && st[0] == *old(ops) && st.last() == *ops);
            return Err(e);
        }
        i = i + 1;
    }
    assert(steps_outcome(sv, results, Ok(())));
    Ok(())
}

/// Installs: performs [`install_steps`] of the request through `ops`.
pub fn apply_install<O: InstallOps>(request: &InstallRequest, ops: &mut O) -> (r: Result<(), InstallError>)
    ensures
        exists|o: &mut O, steps: &Vec<InstallStep>|
            #[trigger] call_ensures(apply_steps::<O>, (steps, o), r) && *o == *old(ops) && *final(o) == *final(ops)
                && steps_view(steps@) == install_steps_spec(
                request.source_binary_path@,
                install_spec_view(request.spec),
                request.init,
            ),
{
    let steps = install_steps(request);
    apply_steps(&steps, ops)
}

/// Uninstalls: performs [`uninstall_steps`] through `ops`.
pub fn apply_uninstall<O: InstallOps>(kind: InitKind, binary_path: &str, ops: &mut O) -> (r: Result<(), InstallError>)
    ensures
        exists|o: &mut O, steps: &Vec<InstallStep>|
            #[trigger] call_ensures(apply_steps::<O>, (steps, o), r) && *o == *old(ops) && *final(o) == *final(ops)
                && steps_view(steps@) == uninstall_steps_spec(kind, binary_path@),
{
    let steps = uninstall_steps(kind, binary_path);
    apply_steps(&steps, ops)
}

/// Runs the status command of the init system through `ops`.
pub fn run_status<O: InstallOps>(kind: InitKind, ops: &mut O) -> (r: Result<(), InstallError>)
    ensures
        exists|o: &mut O, c: &[String]|
            #[trigger] call_ensures(O::run, (o, c), r) && *o == *old(ops) && *final(o) == *final(ops) && strings_view(
                c@,
            ) == status_command_spec(kind),
{
    let command = status_command(kind);
    ops.run(command.as_slice())
}

/// Uninstalling removes exactly the service file that installing wrote, and
/// the binary installing copied, whatever arguments the service was given.
pub proof fn lemma_uninstall_removes_installed_files(
    source: Seq<char>,
    spec: (Seq<char>, Seq<Seq<char>>),
    kind: InitKind,
)
    ensures
        ({
            let inst = install_steps_spec(source, spec, kind);
            let uninst = uninstall_steps_spec(kind, spec.0);
            let n = uninstall_commands_spec(kind).len() as int;
            &&& inst[1] matches StepView::WriteFile { path, .. } && uninst[n] == (StepView::RemoveFile { path })
            &&& inst[0] matches StepView::CopyFile { to, .. } && uninst[n + 1] == (StepView::RemoveFile { path: to })
        }),
{
}


/// The init system is chosen by a fixed priority: an OpenWrt marker wins;
/// without one, a running systemd with `systemctl` wins whatever the OpenRC,
/// `update-rc.d`, `chkconfig` and BusyBox probes say; each later kind is
/// chosen only when its own probe is present and no earlier one is; with no
/// probe at all the init system is unknown.
pub proof fn lemma_init_priority(probe: InitProbe)
    ensures
        probe.has_openwrt_release || probe.has_procd ==> detect_init_spec(probe) == InitKind::OpenWrtProcd,
        !probe.has_openwrt_release && !probe.has_procd && probe.has_systemd_runtime && probe.has_systemctl
            ==> detect_init_spec(probe) == InitKind::Systemd,
        detect_init_spec(probe) == InitKind::Systemd ==> probe.has_systemd_runtime && probe.has_systemctl,
        detect_init_spec(probe) == InitKind::OpenRc ==> (probe.has_openrc_runtime || probe.has_rc_service)
            && !probe.has_openwrt_release && !probe.has_procd && !(probe.has_systemd_runtime && probe.has_systemctl),
        detect_init_spec(probe) == InitKind::SysVUpdateRcD ==> probe.has_update_rc_d && !probe.has_openwrt_release
            && !probe.has_procd && !(probe.has_systemd_runtime && probe.has_systemctl) && !probe.has_openrc_runtime
            && !probe.has_rc_service,
        detect_init_spec(probe) == InitKind::SysVChkconfig ==> probe.has_chkconfig && !probe.has_update_rc_d
            && !probe.has_openwrt_release && !probe.has_procd && !(probe.has_systemd_runtime && probe.has_systemctl)
            && !probe.has_openrc_runtime && !probe.has_rc_service,
        detect_init_spec(probe) == InitKind::BusyBox ==> probe.has_busybox && !probe.has_chkconfig
            && !probe.has_update_rc_d && !probe.has_openwrt_release && !probe.has_procd && !(probe.has_systemd_runtime
            && probe.has_systemctl) && !probe.has_openrc_runtime && !probe.has_rc_service,
        !probe.has_openwrt_release && !probe.has_procd && !probe.has_systemd_runtime && !probe.has_openrc_runtime
            && !probe.has_rc_service && !probe.has_update_rc_d && !probe.has_chkconfig && !probe.has_busybox
            ==> detect_init_spec(probe) == InitKind::Unknown,
{
}

} // verus!
