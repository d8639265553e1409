//! `usbipd` state and the operations it performs.
//!
//! State comes from `usbipd state` (JSON) only; reading it is the caller's
//! business. What is decided here is what a device's state means, and which
//! command line an operation turns into.
use vstd::prelude::*;

use crate::disk::is_file;
use crate::text::{
    all_digits, all_digits_vec, chars_of, ci_eq, eq_ignore_case, push_str, rfind, rfind_vec, split_once,
    split_once_vec, str_string, string_of, sub_vec, trim, trim_str, u32_string, dec_text,
};

verus! {

/// One entry from `usbipd state`.
#[derive(Debug, Clone)]
pub struct UsbipdDevice {
    /// Only meaningful while connected. Never persist it as an identifier:
    /// the same bus ID comes to mean a different device after hubs are
    /// re-enumerated.
    pub bus_id: Option<String>,
    pub client_ip_address: Option<String>,
    pub description: String,
    /// Matches the Windows PnP Device Instance ID exactly, and is the only
    /// correct key for joining the two.
    pub instance_id: String,
    pub is_forced: bool,
    /// Issued by usbipd on bind and kept while the device is away.
    pub persisted_guid: Option<String>,
    /// While attached: `Vid_80EE&Pid_CAFE\<third element>`.
    pub stub_instance_id: Option<String>,
}

#[derive(Debug, Clone, Copy, PartialEq, Eq, Structural)]
pub enum SharingState {
    /// Connected but not bound.
    NotShared,
    /// Bound and connected, so ready to attach.
    Shared,
    /// Attached to a client.
    Attached,
    /// Only a bind record remains; the device is not connected.
    Absent,
}

impl UsbipdDevice {
    pub open spec fn connected(&self) -> bool {
        self.bus_id.is_some()
    }

    pub open spec fn shared(&self) -> bool {
        self.persisted_guid.is_some()
    }

    pub open spec fn attached(&self) -> bool {
        self.stub_instance_id.is_some() || self.client_ip_address.is_some()
    }

    /// Attached first, then absent, then shared or not.
    pub open spec fn state(&self) -> SharingState {
        if self.attached() {
            SharingState::Attached
        } else if !self.connected() {
            SharingState::Absent
        } else if self.shared() {
            SharingState::Shared
        } else {
            SharingState::NotShared
        }
    }

    /// Whether the device is physically connected to Windows right now.
    pub fn is_connected(&self) -> (r: bool)
        ensures
            r == self.connected(),
    {
        self.bus_id.is_some()
    }

    /// Whether the device is bound, i.e. shareable with WSL.
    pub fn is_shared(&self) -> (r: bool)
        ensures
            r == self.shared(),
    {
        self.persisted_guid.is_some()
    }

    /// Whether some client currently holds the device.
    pub fn is_attached(&self) -> (r: bool)
        ensures
            r == self.attached(),
    {
        self.stub_instance_id.is_some() || self.client_ip_address.is_some()
    }

    pub fn sharing_state(&self) -> (r: SharingState)
        ensures
            r == self.state(),
    {
        if self.is_attached() {
            SharingState::Attached
        } else if !self.is_connected() {
            SharingState::Absent
        } else if self.is_shared() {
            SharingState::Shared
        } else {
            SharingState::NotShared
        }
    }
}

impl SharingState {
    pub open spec fn label_spec(self) -> Seq<char> {
        match self {
            SharingState::NotShared => "not shared"@,
            SharingState::Shared => "shared"@,
            SharingState::Attached => "attached"@,
            SharingState::Absent => "absent"@,
        }
    }

    pub fn label(self) -> (r: &'static str)
        ensures
            r@ == self.label_spec(),
    {
        match self {
            SharingState::NotShared => "not shared",
            SharingState::Shared => "shared",
            SharingState::Attached => "attached",
            SharingState::Absent => "absent",
        }
    }
}

/// An operation usbipd can perform on a device.
#[derive(Debug, Clone, Copy, PartialEq, Eq, Structural)]
pub enum Operation {
    /// Make the device shareable. Changes system state, so it needs admin.
    Bind,
    /// Stop sharing it.
    Unbind,
    /// Hand the device to WSL.
    Attach,
    /// Take it back.
    Detach,
}

impl Operation {
    pub open spec fn verb_spec(self) -> Seq<char> {
        match self {
            Operation::Bind => "bind"@,
            Operation::Unbind => "unbind"@,
            Operation::Attach => "attach"@,
            Operation::Detach => "detach"@,
        }
    }

    pub fn verb(self) -> (r: &'static str)
        ensures
            r@ == self.verb_spec(),
    {
        match self {
            Operation::Bind => "bind",
            Operation::Unbind => "unbind",
            Operation::Attach => "attach",
            Operation::Detach => "detach",
        }
    }

    /// Arguments beyond `--busid`: usbipd refuses `attach` without a client,
    /// and `--wsl` names the default distribution.
    pub fn extra_args(self) -> (r: Vec<&'static str>)
        ensures
            self == Operation::Attach ==> r@.len() == 1 && r@[0]@ == "--wsl"@,
            self != Operation::Attach ==> r@.len() == 0,
    {
        let mut r: Vec<&'static str> = Vec::new();
        if let Operation::Attach = self {
            r.push("--wsl");
        }
        r
    }

    /// Whether the operation has to run elevated.
    pub fn needs_admin(self) -> (r: bool)
        ensures
            r == (self == Operation::Bind || self == Operation::Unbind),
    {
        match self {
            Operation::Bind | Operation::Unbind => true,
            _ => false,
        }
    }
}

/// What a usbipd invocation actually did, for the caller to log.
#[derive(Debug, Clone)]
pub struct Executed {
    /// The command line as it was issued, including the bus id that was
    /// resolved for it.
    pub command_line: String,
    pub elevated: bool,
    pub stdout: String,
    pub stderr: String,
}

/// Whether `bus_id` is a plain `<hub>-<port>`: two non-empty runs of decimal
/// digits around the first `-`.
pub open spec fn valid_bus_id(bus_id: Seq<char>) -> bool {
    match split_once(bus_id, '-') {
        Some((hub, port)) => hub.len() > 0 && port.len() > 0 && all_digits(hub) && all_digits(port),
        None => false,
    }
}

/// A bus id usbipd reported that is not a plain `<hub>-<port>`.
#[derive(Debug, Clone, PartialEq, Eq)]
pub struct UnusableBusId(pub String);

/// Rejects anything that is not a plain `<hub>-<port>`.
///
/// The elevated path passes the bus id inside a command line rather than as
/// an argument vector, so it is checked rather than trusted.
pub fn checked_bus_id(bus_id: &str) -> (r: Result<&str, UnusableBusId>)
    ensures
        match r {
            Ok(b) => valid_bus_id(bus_id@) && b@ == bus_id@,
            Err(e) => !valid_bus_id(bus_id@) && e.0@ == bus_id@,
        },
{
    let chars = chars_of(bus_id);
    let valid = match split_once_vec(&chars, '-') {
        Some((hub, port)) => hub.len() > 0 && port.len() > 0 && all_digits_vec(&hub)
            && all_digits_vec(&port),
        None => false,
    };
    if valid {
        Ok(bus_id)
    } else {
        Err(UnusableBusId(bus_id.to_owned()))
    }
}

/// Why an operation could not be turned into a command.
#[derive(Debug, Clone, PartialEq, Eq)]
pub enum RunError {
    /// usbipd no longer lists a device with this instance id.
    Unknown(String),
    /// The device (named by its description) has no bus id.
    NotConnected(String),
    /// usbipd reported a bus id that is not a plain `<hub>-<port>`.
    UnusableBusId(String),
}

/// An operation resolved against the state usbipd reported just now.
#[derive(Debug, Clone)]
pub struct Prepared {
    /// The bus id the state names for the device now.
    pub bus_id: String,
    /// `<verb> --busid <bus id>[ --wsl]`, as one command line.
    pub arguments: String,
    /// The executable and the arguments.
    pub command_line: String,
    /// Whether it has to run elevated.
    pub elevated: bool,
}

/// The index of the first device whose instance id matches, ignoring ASCII
/// case.
pub open spec fn first_match(devices: Seq<UsbipdDevice>, instance_id: Seq<char>) -> Option<int>
    decreases devices.len(),
{
    if devices.len() == 0 {
        None
    } else if ci_eq(devices[0].instance_id@, instance_id) {
        Some(0)
    } else {
        match first_match(devices.drop_first(), instance_id) {
            Some(i) => Some(i + 1),
            None => None,
        }
    }
}

/// The arguments an operation is issued with.
pub open spec fn arguments_spec(operation: Operation, bus_id: Seq<char>) -> Seq<char> {
    operation.verb_spec() + " --busid "@ + bus_id + (if operation == Operation::Attach {
        " --wsl"@
    } else {
        Seq::<char>::empty()
    })
}

/// The arguments of an operation name the usbipd subcommand after it and
/// then the bus id, with `--wsl` for an attach only; so no two operations
/// issue the same command for one bus id.
pub proof fn each_operation_runs_its_own_subcommand(operation: Operation, bus_id: Seq<char>)
    ensures
        arguments_spec(operation, bus_id) == match operation {
            Operation::Bind => "bind --busid "@ + bus_id,
            Operation::Unbind => "unbind --busid "@ + bus_id,
            Operation::Attach => "attach --busid "@ + bus_id + " --wsl"@,
            Operation::Detach => "detach --busid "@ + bus_id,
        },
{
    reveal_strlit("bind");
    reveal_strlit("unbind");
    reveal_strlit("attach");
    reveal_strlit("detach");
    reveal_strlit(" --busid ");
    reveal_strlit("bind --busid ");
    reveal_strlit("unbind --busid ");
    reveal_strlit("attach --busid ");
    reveal_strlit("detach --busid ");
    assert(arguments_spec(operation, bus_id) =~= match operation {
        Operation::Bind => "bind --busid "@ + bus_id,
        Operation::Unbind => "unbind --busid "@ + bus_id,
        Operation::Attach => "attach --busid "@ + bus_id + " --wsl"@,
        Operation::Detach => "detach --busid "@ + bus_id,
    });
}

/// Resolves an operation on the device with this instance id against the
/// state usbipd reported immediately before.
///
/// The bus id is read from that state and never taken from anything the
/// caller is holding: hub numbering shifts, so a bus id noted even seconds ago
/// may now name a different device.
pub fn prepare(operation: Operation, instance_id: &str, devices: &[UsbipdDevice], exe: &str) -> (r:
    Result<Prepared, RunError>)
    ensures
        match first_match(devices@, instance_id@) {
            None => r is Err && r->Err_0 is Unknown && r->Err_0->Unknown_0@ == instance_id@,
            Some(i) => {
                let d = devices@[i];
                match d.bus_id {
                    None => r is Err && r->Err_0 is NotConnected && r->Err_0->NotConnected_0@
                        == d.description@,
                    Some(b) => if valid_bus_id(b@) {
                        r is Ok && r->Ok_0.bus_id@ == b@ && r->Ok_0.arguments@ == arguments_spec(
                            operation,
                            b@,
                        ) && r->Ok_0.command_line@ == exe@ + " "@ + arguments_spec(operation, b@)
                            && r->Ok_0.elevated == (operation == Operation::Bind || operation
                            == Operation::Unbind)
                    } else {
                        r is Err && r->Err_0 is UnusableBusId && r->Err_0->UnusableBusId_0@
                            == b@
                    },
                }
            },
        },
{
    let ghost ds = devices@;
    let n = devices.len();
    let mut i: usize = 0;
    assert(ds.skip(0) == ds);
    while i < n
        invariant
            n == devices@.len(),
            ds == devices@,
            i <= n,
            first_match(ds, instance_id@) == (match first_match(ds.skip(i as int), instance_id@) {
                Some(k) => Some(k + i),
                None => None,
            }),
        decreases n - i,
    {
        assert(ds.skip(i as int)[0] == ds[i as int]);
        assert(ds.skip(i as int).drop_first() == ds.skip(i as int + 1));
        if eq_ignore_case(devices[i].instance_id.as_str(), instance_id) {
            return prepare_for(operation, &devices[i], exe);
        }
        i = i + 1;
    }
    Err(RunError::Unknown(instance_id.to_owned()))
}

fn prepare_for(operation: Operation, device: &UsbipdDevice, exe: &str) -> (r: Result<
    Prepared,
    RunError,
>)
    ensures
        match device.bus_id {
            None => r is Err && r->Err_0 is NotConnected && r->Err_0->NotConnected_0@
                == device.description@,
            Some(b) => if valid_bus_id(b@) {
                r is Ok && r->Ok_0.bus_id@ == b@ && r->Ok_0.arguments@ == arguments_spec(
                    operation,
                    b@,
                ) && r->Ok_0.command_line@ == exe@ + " "@ + arguments_spec(operation, b@)
                    && r->Ok_0.elevated == (operation == Operation::Bind || operation
                    == Operation::Unbind)
            } else {
                r is Err && r->Err_0 is UnusableBusId && r->Err_0->UnusableBusId_0@ == b@
            },
        },
{
    let bus_id = match &device.bus_id {
        Some(b) => b,
        None => {
            return Err(RunError::NotConnected(device.description.clone()));
        },
    };
    let checked = match checked_bus_id(bus_id.as_str()) {
        Ok(b) => b,
        Err(UnusableBusId(b)) => {
            return Err(RunError::UnusableBusId(b));
        },
    };
    let mut arguments = String::new();
    push_str(&mut arguments, operation.verb());
    push_str(&mut arguments, " --busid ");
    push_str(&mut arguments, checked);
    let extra = operation.extra_args();
    if extra.len() > 0 {
        push_str(&mut arguments, " ");
        push_str(&mut arguments, extra[0]);
        proof {
            reveal_strlit(" ");
            reveal_strlit("--wsl");
            reveal_strlit(" --wsl");
            assert(" "@ + "--wsl"@ =~= " --wsl"@);
        }
    }
    let mut command_line = String::new();
    push_str(&mut command_line, exe);
    push_str(&mut command_line, " ");
    push_str(&mut command_line, arguments.as_str());
    assert(arguments@ =~= arguments_spec(operation, bus_id@));
    assert(command_line@ =~= exe@ + " "@ + arguments_spec(operation, bus_id@));
    Ok(
        Prepared {
            bus_id: bus_id.clone(),
            arguments,
            command_line,
            elevated: operation.needs_admin(),
        },
    )
}

/// Where the usbipd-win installer puts the executable.
pub const DEFAULT_INSTALL_PATH: &'static str = "C:\\Program Files\\usbipd-win\\usbipd.exe";

/// A file named `name` in the folder of `path`: everything up to and
/// including the last `\`, then `name`. Nothing when `path` names no folder.
pub open spec fn sibling_spec(path: Seq<char>, name: Seq<char>) -> Option<Seq<char>> {
    match rfind(path, seq!['\\']) {
        Some(i) => Some(path.take(i + 1) + name),
        None => None,
    }
}

/// A file named `name` in the folder of `path`.
pub fn sibling(path: &str, name: &str) -> (r: Option<String>)
    ensures
        match sibling_spec(path@, name@) {
            Some(t) => r matches Some(s) && s@ == t,
            None => r.is_none(),
        },
{
    let chars = chars_of(path);
    let mut sep: Vec<char> = Vec::new();
    sep.push('\\');
    assert(sep@ =~= seq!['\\']);
    match rfind_vec(&chars, &sep) {
        Some(i) => {
            assert(chars@.len() == chars.len());
            assert(i + 1 <= chars@.len()) by {
                crate::text::lemma_rfind_occurs(chars@, sep@);
            }
            let mut out = string_of(&sub_vec(&chars, 0, i + 1));
            push_str(&mut out, name);
            assert(chars@.subrange(0, i + 1) =~= chars@.take(i + 1));
            Some(out)
        },
        None => None,
    }
}

/// What a failed elevated run is reported as.
pub open spec fn elevated_failure_text(command_line: Seq<char>, code: u32) -> Seq<char> {
    "`"@ + command_line + "` (elevated) exited with "@ + dec_text(code as nat)
}

/// What a failed run is reported as: the command line, and what it wrote to
/// stderr, or to stdout when stderr is blank, trimmed.
pub open spec fn failure_text(command_line: Seq<char>, stdout: Seq<char>, stderr: Seq<char>) -> Seq<char> {
    "`"@ + command_line + "` failed: "@ + if trim(stderr).len() == 0 {
        trim(stdout)
    } else {
        trim(stderr)
    }
}

/// What an elevated run of `prepared` comes to, given its exit code: an
/// elevated child writes to its own console, so only the code is known.
pub fn finish_elevated(prepared: &Prepared, code: u32) -> (r: Result<Executed, String>)
    ensures
        match r {
            Ok(e) => {
                &&& code == 0
                &&& e.command_line@ == prepared.command_line@
                &&& e.elevated
                &&& e.stdout@.len() == 0
                &&& e.stderr@.len() == 0
            },
            Err(m) => code != 0 && m@ == elevated_failure_text(prepared.command_line@, code),
        },
{
    if code != 0 {
        let mut m = str_string("`");
        push_str(&mut m, prepared.command_line.as_str());
        push_str(&mut m, "` (elevated) exited with ");
        push_str(&mut m, u32_string(code).as_str());
        proof {
            reveal_strlit("`");
            reveal_strlit("` (elevated) exited with ");
        }
        assert(m@ =~= elevated_failure_text(prepared.command_line@, code));
        return Err(m);
    }
    Ok(Executed {
        command_line: str_string(prepared.command_line.as_str()),
        elevated: true,
        stdout: String::new(),
        stderr: String::new(),
    })
}

/// What a run of `prepared` in this process comes to, given whether it
/// reported success and what it wrote, decoded: the outputs trimmed, and an
/// error naming the command line and its message when it failed.
pub fn finish_captured(prepared: &Prepared, success: bool, stdout: &str, stderr: &str) -> (r: Result<
    Executed,
    String,
>)
    ensures
        match r {
            Ok(e) => {
                &&& success
                &&& e.command_line@ == prepared.command_line@
                &&& !e.elevated
                &&& e.stdout@ == trim(stdout@)
                &&& e.stderr@ == trim(stderr@)
            },
            Err(m) => !success && m@ == failure_text(prepared.command_line@, stdout@, stderr@),
        },
{
    let out = trim_str(stdout);
    let err = trim_str(stderr);
    if !success {
        let mut m = str_string("`");
        push_str(&mut m, prepared.command_line.as_str());
        push_str(&mut m, "` failed: ");
        if err.as_str().is_empty() {
            push_str(&mut m, out.as_str());
        } else {
            push_str(&mut m, err.as_str());
        }
        proof {
            reveal_strlit("`");
            reveal_strlit("` failed: ");
        }
        assert(m@ =~= failure_text(prepared.command_line@, stdout@, stderr@));
        return Err(m);
    }
    Ok(Executed { command_line: str_string(prepared.command_line.as_str()), elevated: false, stdout: out, stderr: err })
}

/// The `usb.ids` path to use, given whether a file is beside the executable
/// at the default install location: that sibling path when one is there,
/// else none.
pub open spec fn usb_ids_given_spec(present: bool) -> Option<Seq<char>> {
    if present {
        sibling_spec(DEFAULT_INSTALL_PATH@, "usb.ids"@)
    } else {
        None
    }
}

/// The `usb.ids` path to use, given whether a file is at the sibling path.
pub fn usb_ids_given(present: bool) -> (r: Option<String>)
    ensures
        crate::windevice::opt_text(r) == usb_ids_given_spec(present),
{
    if present {
        sibling(DEFAULT_INSTALL_PATH, "usb.ids")
    } else {
        None
    }
}

/// Where usbipd-win keeps its copy of `usb.ids`: beside the executable at
/// the default install location, when a file is there. The disk is asked
/// about that sibling path, and its answer decides as `usb_ids_given` says.
pub fn usb_ids_path() -> (r: Option<String>)
    ensures
        exists|present: bool| crate::windevice::opt_text(r) == #[trigger] usb_ids_given_spec(present),
{
    match sibling(DEFAULT_INSTALL_PATH, "usb.ids") {
        Some(candidate) => {
            let present = is_file(candidate.as_str());
            let r = usb_ids_given(present);
            assert(crate::windevice::opt_text(r) == usb_ids_given_spec(present));
            r
        },
        None => {
            assert(usb_ids_given_spec(true) == None::<Seq<char>>);
            None
        },
    }
}

/// Which `usbipd.exe` to run, given whether a file is at the default install
/// location: that path when one is there, otherwise whatever `PATH` resolves.
pub open spec fn usbipd_exe_spec(installed: bool) -> Seq<char> {
    if installed {
        DEFAULT_INSTALL_PATH@
    } else {
        "usbipd.exe"@
    }
}

/// Which `usbipd.exe` to run, given whether a file is at the default install
/// location.
pub fn usbipd_exe(installed: bool) -> (r: String)
    ensures
        r@ == usbipd_exe_spec(installed),
{
    if installed {
        str_string(DEFAULT_INSTALL_PATH)
    } else {
        str_string("usbipd.exe")
    }
}

/// Which `usbipd.exe` to run. The disk is asked about the default install
/// location, and its answer decides as `usbipd_exe` says.
pub fn locate() -> (r: String)
    ensures
        exists|installed: bool| r@ == #[trigger] usbipd_exe_spec(installed),
{
    let installed = is_file(DEFAULT_INSTALL_PATH);
    let r = usbipd_exe(installed);
    assert(r@ == usbipd_exe_spec(installed));
    r
}

} // verus!
