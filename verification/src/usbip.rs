//! usbip-win2 on the client: the command lines for each operation, what a
//! dry run reports instead of running them, how a finished run is judged,
//! and how the port of an attached device is read from `usbip port`.

use vstd::prelude::*;
use crate::error::{ClientError, ClientErrorView};
use crate::protocol::views;
use crate::text::{
    chars_of, concat, contains_chars, has_infix, join, join_with, lossy_text, lower, lower_chars,
    owned, string_of, trim, trim_chars, trimmed, utf8_lossy,
};

verus! {

/// What a usbip run printed, trimmed, and its exit code.
#[derive(Clone, Debug)]
pub struct CommandOutput {
    pub stdout: String,
    pub stderr: String,
    pub code: Option<i32>,
}

/// A command output as values.
pub struct CommandOutputView {
    pub stdout: Seq<char>,
    pub stderr: Seq<char>,
    pub code: Option<i32>,
}

impl View for CommandOutput {
    type V = CommandOutputView;

    open spec fn view(&self) -> CommandOutputView {
        CommandOutputView { stdout: self.stdout@, stderr: self.stderr@, code: self.code }
    }
}

/// The hint added to a failure that looks like missing rights.
pub open spec fn admin_hint_text() -> Seq<char> {
    "（管理者としてWindows Terminalを起動して再試行してください）"@
}

/// Whether a failure looks like missing administrator rights: exit code 5,
/// or a message that speaks of denied access, permission, administrator or
/// elevation (case ignored).
pub open spec fn needs_admin(code: Option<i32>, message: Seq<char>) -> bool {
    ||| code == Some(5i32)
    ||| has_infix(lower(message), "access is denied"@)
    ||| has_infix(lower(message), "permission"@)
    ||| has_infix(lower(message), "administrator"@)
    ||| has_infix(lower(message), "elevation"@)
}

/// How a finished usbip run is judged: its output, trimmed, on success;
/// otherwise a failure with the exit code and stderr (or stdout when stderr
/// is blank), and a hint when rights seem to be missing.
pub open spec fn run_result(
    stdout: Seq<u8>,
    stderr: Seq<u8>,
    success: bool,
    code: Option<i32>,
) -> Result<CommandOutputView, ClientErrorView> {
    let out = trim(utf8_lossy(stdout));
    let err = trim(utf8_lossy(stderr));
    if success {
        Ok(CommandOutputView { stdout: out, stderr: err, code })
    } else {
        let message = if err.len() == 0 {
            out
        } else {
            err
        };
        Err(
            ClientErrorView::UsbipFailed {
                code,
                message,
                admin_hint: if needs_admin(code, message) {
                    admin_hint_text()
                } else {
                    ""@
                },
            },
        )
    }
}

/// The view of a command outcome.
pub open spec fn output_result_view(r: Result<CommandOutput, ClientError>) -> Result<
    CommandOutputView,
    ClientErrorView,
> {
    match r {
        Ok(o) => Ok(o@),
        Err(e) => Err(e@),
    }
}

/// The executable usbip-win2, and whether commands are only reported.
pub struct WindowsUsbip {
    executable: String,
    dry_run: bool,
}

/// The runner as values.
pub struct WindowsUsbipView {
    pub executable: Seq<char>,
    pub dry_run: bool,
}

impl View for WindowsUsbip {
    type V = WindowsUsbipView;

    closed spec fn view(&self) -> WindowsUsbipView {
        WindowsUsbipView { executable: self.executable@, dry_run: self.dry_run }
    }
}

/// A usbip-win2 operation.
#[derive(Clone, Debug)]
pub enum UsbipCommand {
    /// List the local ports (`usbip port`).
    Port,
    /// List what a host exports.
    List { host: String },
    /// Attach a device of a host.
    Attach { host: String, bus_id: String },
    /// Stop the attach attempts of a device of a host.
    StopAttach { host: String, bus_id: String },
    /// Stop every attach attempt.
    StopAll,
    /// Detach a local port.
    Detach { port: String },
}

/// The arguments of an operation, with usbip-win2 0.9.7.8's long options.
pub open spec fn command_args(c: UsbipCommand) -> Seq<Seq<char>> {
    match c {
        UsbipCommand::Port => seq!["port"@],
        UsbipCommand::List { host } => seq!["list"@, "--remote"@, host@],
        UsbipCommand::Attach { host, bus_id } => seq![
            "attach"@,
            "--remote"@,
            host@,
            "--bus-id"@,
            bus_id@,
        ],
        UsbipCommand::StopAttach { host, bus_id } => seq![
            "attach"@,
            "--remote"@,
            host@,
            "--bus-id"@,
            bus_id@,
            "--stop"@,
        ],
        UsbipCommand::StopAll => seq!["attach"@, "--stop-all"@],
        UsbipCommand::Detach { port } => seq!["detach"@, "--port"@, port@],
    }
}

/// What to do for an operation: report it (a dry run), or run usbip-win2
/// with these arguments and judge the run with `WindowsUsbip::finished`.
#[derive(Debug)]
pub enum Invocation {
    Simulated(CommandOutput),
    Spawn(Vec<String>),
}

/// An invocation as values.
pub enum InvocationView {
    Simulated(CommandOutputView),
    Spawn(Seq<Seq<char>>),
}

impl View for Invocation {
    type V = InvocationView;

    open spec fn view(&self) -> InvocationView {
        match self {
            Invocation::Simulated(o) => InvocationView::Simulated(o@),
            Invocation::Spawn(a) => InvocationView::Spawn(views(a@)),
        }
    }
}

/// What a dry run reports for arguments `args`.
pub open spec fn dry_run_output(executable: Seq<char>, args: Seq<Seq<char>>) -> CommandOutputView {
    CommandOutputView {
        stdout: "dry-run: "@ + executable + " "@ + join_with(args, " "@),
        stderr: Seq::empty(),
        code: Some(0i32),
    }
}

/// What runner `u` does for arguments `args`.
pub open spec fn invocation(u: WindowsUsbipView, args: Seq<Seq<char>>) -> InvocationView {
    if u.dry_run {
        InvocationView::Simulated(dry_run_output(u.executable, args))
    } else {
        InvocationView::Spawn(args)
    }
}

/// The arguments of an operation.
pub fn args_of(c: &UsbipCommand) -> (r: Vec<String>)
    ensures
        views(r@) == command_args(*c),
{
    let mut r: Vec<String> = Vec::new();
    match c {
        UsbipCommand::Port => {
            r.push(owned("port"));
        },
        UsbipCommand::List { host } => {
            r.push(owned("list"));
            r.push(owned("--remote"));
            r.push(host.clone());
        },
        UsbipCommand::Attach { host, bus_id } => {
            r.push(owned("attach"));
            r.push(owned("--remote"));
            r.push(host.clone());
            r.push(owned("--bus-id"));
            r.push(bus_id.clone());
        },
        UsbipCommand::StopAttach { host, bus_id } => {
            r.push(owned("attach"));
            r.push(owned("--remote"));
            r.push(host.clone());
            r.push(owned("--bus-id"));
            r.push(bus_id.clone());
            r.push(owned("--stop"));
        },
        UsbipCommand::StopAll => {
            r.push(owned("attach"));
            r.push(owned("--stop-all"));
        },
        UsbipCommand::Detach { port } => {
            r.push(owned("detach"));
            r.push(owned("--port"));
            r.push(port.clone());
        },
    }
    assert(views(r@) =~= command_args(*c));
    r
}

impl WindowsUsbip {
    /// A runner for `executable`; with `dry_run`, commands are only
    /// reported.
    pub fn new(executable: String, dry_run: bool) -> (r: WindowsUsbip)
        ensures
            r@ == (WindowsUsbipView { executable: executable@, dry_run }),
    {
        WindowsUsbip { executable, dry_run }
    }

    /// Whether commands are only reported.
    pub fn is_dry_run(&self) -> (r: bool)
        ensures
            r == self@.dry_run,
    {
        self.dry_run
    }

    /// The executable that is run.
    pub fn executable(&self) -> (r: &str)
        ensures
            r@ == self@.executable,
    {
        self.executable.as_str()
    }

    /// What to do for arguments `args`: a dry run reports
    /// `dry-run: <executable> <args>` with exit code 0.
    pub fn execute(&self, args: Vec<String>) -> (r: Invocation)
        ensures
            r@ == invocation(self@, views(args@)),
    {
        if self.dry_run {
            let line = concat("dry-run: ", self.executable.as_str());
            let line = concat(line.as_str(), " ");
            let joined = join(&args, " ");
            let stdout = concat(line.as_str(), joined.as_str());
            Invocation::Simulated(CommandOutput { stdout, stderr: String::new(), code: Some(0) })
        } else {
            Invocation::Spawn(args)
        }
    }

    /// Judges a finished run from what it wrote, whether it succeeded and
    /// its exit code.
    pub fn finished(stdout: &Vec<u8>, stderr: &Vec<u8>, success: bool, code: Option<i32>) -> (r: Result<
        CommandOutput,
        ClientError,
    >)
        ensures
            output_result_view(r) == run_result(stdout@, stderr@, success, code),
    {
        let out = trimmed(lossy_text(stdout).as_str());
        let err = trimmed(lossy_text(stderr).as_str());
        if success {
            return Ok(CommandOutput { stdout: out, stderr: err, code });
        }
        let message = if err.as_str().is_empty() {
            out
        } else {
            err
        };
        let admin = needs_admin_rights(code, message.as_str());
        let admin_hint = if admin {
            "（管理者としてWindows Terminalを起動して再試行してください）"
        } else {
            ""
        };
        Err(ClientError::UsbipFailed { code, message, admin_hint })
    }

    /// The error for a run that could not be started: usbip-win2 missing,
    /// or another I/O error with its text.
    pub fn spawn_failure(not_found: bool, message: String) -> (r: ClientError)
        ensures
            r@ == (if not_found {
                ClientErrorView::UsbipNotFound
            } else {
                ClientErrorView::UsbipIo(message@)
            }),
    {
        if not_found {
            ClientError::UsbipNotFound
        } else {
            ClientError::UsbipIo(message)
        }
    }

    /// `usbip port`.
    pub fn status(&self) -> (r: Invocation)
        ensures
            r@ == invocation(self@, command_args(UsbipCommand::Port)),
    {
        self.execute(args_of(&UsbipCommand::Port))
    }

    /// What `host` exports.
    pub fn list(&self, host: &str) -> (r: Invocation)
        ensures
            r@ == invocation(self@, seq!["list"@, "--remote"@, host@]),
    {
        let c = UsbipCommand::List { host: owned(host) };
        self.execute(args_of(&c))
    }

    /// Attaches `bus_id` of `host`.
    pub fn attach(&self, host: &str, bus_id: &str) -> (r: Invocation)
        ensures
            r@ == invocation(self@, seq!["attach"@, "--remote"@, host@, "--bus-id"@, bus_id@]),
    {
        let c = UsbipCommand::Attach { host: owned(host), bus_id: owned(bus_id) };
        self.execute(args_of(&c))
    }

    /// Stops the attach attempts of `bus_id` of `host`.
    pub fn stop_attach(&self, host: &str, bus_id: &str) -> (r: Invocation)
        ensures
            r@ == invocation(
                self@,
                seq!["attach"@, "--remote"@, host@, "--bus-id"@, bus_id@, "--stop"@],
            ),
    {
        let c = UsbipCommand::StopAttach { host: owned(host), bus_id: owned(bus_id) };
        self.execute(args_of(&c))
    }

    /// Stops every attach attempt.
    pub fn stop_all(&self) -> (r: Invocation)
        ensures
            r@ == invocation(self@, seq!["attach"@, "--stop-all"@]),
    {
        self.execute(args_of(&UsbipCommand::StopAll))
    }

    /// Detaches `bus_id`, given the port it was found on (a dry run needs
    /// none): no port means the device is not attached.
    pub fn detach_bus_id(&self, bus_id: &str, port: Option<String>) -> (r: Result<Invocation, ClientError>)
        ensures
            self@.dry_run ==> (r matches Ok(i) && i@ == invocation(
                self@,
                seq!["detach"@, "--port"@, "<resolved-port>"@],
            )),
            !self@.dry_run ==> match port {
                Some(p) => (r matches Ok(i) && i@ == invocation(self@, seq!["detach"@, "--port"@, p@])),
                None => (r matches Err(e) && e@ == ClientErrorView::UsbipPortNotFound(bus_id@)),
            },
    {
        if self.dry_run {
            let c = UsbipCommand::Detach { port: owned("<resolved-port>") };
            return Ok(self.execute(args_of(&c)));
        }
        match port {
            Some(p) => {
                let c = UsbipCommand::Detach { port: p };
                Ok(self.execute(args_of(&c)))
            },
            None => Err(ClientError::UsbipPortNotFound(owned(bus_id))),
        }
    }

    /// The port `bus_id` is attached on, from the output of `usbip port`
    /// (a dry run needs none and names a placeholder port).
    pub fn attached_port(&self, bus_id: &str, status_stdout: &str) -> (r: Option<String>)
        ensures
            self@.dry_run ==> (r matches Some(p) && p@ == "<dry-run-port>"@),
            !self@.dry_run ==> crate::protocol::opt_view(r) == port_in(status_stdout@, bus_id@),
    {
        if self.dry_run {
            return Some(owned("<dry-run-port>"));
        }
        WindowsUsbip::port_for_bus_id(status_stdout, bus_id)
    }
}

/// Whether a failure looks like missing administrator rights.
fn needs_admin_rights(code: Option<i32>, message: &str) -> (r: bool)
    ensures
        r == needs_admin(code, message@),
{
    let is_five = match code {
        Some(c) => c == 5,
        None => false,
    };
    if is_five {
        return true;
    }
    let low = lower_chars(chars_of(message).as_slice());
    contains_chars(low.as_slice(), chars_of("access is denied").as_slice())
        || contains_chars(low.as_slice(), chars_of("permission").as_slice())
        || contains_chars(low.as_slice(), chars_of("administrator").as_slice())
        || contains_chars(low.as_slice(), chars_of("elevation").as_slice())
}

} // verus!

verus! {

/// The lines of `s` after `cur`, the text up to the next `\n`.
pub open spec fn lines_from(s: Seq<char>, cur: Seq<char>) -> Seq<Seq<char>>
    decreases s.len(),
{
    if s.len() == 0 {
        seq![cur]
    } else if s[0] == '\n' {
        seq![cur] + lines_from(s.drop_first(), Seq::empty())
    } else {
        lines_from(s.drop_first(), cur.push(s[0]))
    }
}

/// The pieces of `s` between `\n`s. Once each is trimmed they are the
/// lines of `str::lines` (which also drops a `\r` before a `\n`), and
/// perhaps a last empty one.
pub open spec fn split_lines(s: Seq<char>) -> Seq<Seq<char>> {
    lines_from(s, Seq::empty())
}

/// The text of `s` before its first `:`.
pub open spec fn until_colon(s: Seq<char>) -> Seq<char>
    decreases s.len(),
{
    if s.len() == 0 || s[0] == ':' {
        Seq::empty()
    } else {
        seq![s[0]] + until_colon(s.drop_first())
    }
}

/// `s` without its leading zeros.
pub open spec fn strip_zeros(s: Seq<char>) -> Seq<char>
    decreases s.len(),
{
    if s.len() > 0 && s[0] == '0' {
        strip_zeros(s.drop_first())
    } else {
        s
    }
}

/// The port number written after `Port ` (before the `:`), without
/// leading zeros; `0` when nothing is left.
pub open spec fn port_number(rest: Seq<char>) -> Seq<char> {
    if strip_zeros(until_colon(rest)).len() == 0 {
        "0"@
    } else {
        strip_zeros(until_colon(rest))
    }
}

/// Whether a trimmed line names device `bus` (`/<bus>` or `busid=<bus>`).
pub open spec fn names_bus(line: Seq<char>, bus: Seq<char>) -> bool {
    has_infix(line, "/"@ + bus) || has_infix(line, "busid="@ + bus)
}

/// The port of device `bus` from the lines of `usbip port`: the port of
/// the latest `Port ` line at the first line that names the device.
pub open spec fn port_scan(lines: Seq<Seq<char>>, bus: Seq<char>, port: Option<Seq<char>>) -> Option<
    Seq<char>,
>
    decreases lines.len(),
{
    if lines.len() == 0 {
        None
    } else {
        let t = trim(lines[0]);
        let p = if "Port "@.is_prefix_of(t) {
            Some(port_number(t.skip(5)))
        } else {
            port
        };
        if names_bus(t, bus) && p is Some {
            p
        } else {
            port_scan(lines.drop_first(), bus, p)
        }
    }
}

/// The port of device `bus` in the output of `usbip port`.
pub open spec fn port_in(output: Seq<char>, bus: Seq<char>) -> Option<Seq<char>> {
    port_scan(split_lines(output), bus, None)
}

/// The view of an optional character vector.
pub open spec fn opt_chars(o: Option<Vec<char>>) -> Option<Seq<char>> {
    match o {
        Some(v) => Some(v@),
        None => None,
    }
}

/// The pieces of `v` between `\n`s.
fn split_line_chars(v: &Vec<char>) -> (r: Vec<Vec<char>>)
    ensures
        r@.map_values(|l: Vec<char>| l@) == split_lines(v@),
{
    let mut done: Vec<Vec<char>> = Vec::new();
    let mut cur: Vec<char> = Vec::new();
    let mut i: usize = 0;
    assert(v@.skip(0) =~= v@);
    while i < v.len()
        invariant
            i <= v.len(),
            split_lines(v@) == done@.map_values(|l: Vec<char>| l@) + lines_from(v@.skip(i as int), cur@),
        decreases v.len() - i,
    {
        let c = v[i];
        assert(v@.skip(i as int)[0] == c);
        assert(v@.skip(i as int).drop_first() =~= v@.skip(i + 1));
        if c == '\n' {
            let ghost before = done@.map_values(|l: Vec<char>| l@);
            let line = cur;
            let ghost lv = line@;
            done.push(line);
            cur = Vec::new();
            assert(done@.map_values(|l: Vec<char>| l@) =~= before.push(lv));
            assert(cur@ =~= Seq::<char>::empty());
            assert(before + lines_from(v@.skip(i as int), lv) =~= before.push(lv) + lines_from(
                v@.skip(i + 1),
                Seq::empty(),
            ));
        } else {
            cur.push(c);
        }
        i = i + 1;
    }
    assert(v@.skip(i as int) =~= Seq::<char>::empty());
    let ghost before = done@.map_values(|l: Vec<char>| l@);
    let ghost cv = cur@;
    done.push(cur);
    assert(done@.map_values(|l: Vec<char>| l@) =~= before.push(cv));
    assert(before + seq![cv] =~= before.push(cv));
    done
}

/// The port number written in `rest`.
fn port_number_of(rest: &[char]) -> (r: Vec<char>)
    ensures
        r@ == port_number(rest@),
{
    let mut head: Vec<char> = Vec::new();
    let mut i: usize = 0;
    assert(rest@.skip(0) =~= rest@);
    while i < rest.len() && rest[i] != ':'
        invariant
            i <= rest.len(),
            until_colon(rest@) == head@ + until_colon(rest@.skip(i as int)),
        decreases rest.len() - i,
    {
        assert(rest@.skip(i as int)[0] == rest@[i as int]);
        assert(rest@.skip(i as int).drop_first() =~= rest@.skip(i + 1));
        let ghost h = head@;
        head.push(rest[i]);
        assert(h + (seq![rest@[i as int]] + until_colon(rest@.skip(i + 1))) =~= head@ + until_colon(
            rest@.skip(i + 1),
        ));
        i = i + 1;
    }
    if i < rest.len() {
        assert(rest@.skip(i as int)[0] == ':');
    }
    assert(until_colon(rest@.skip(i as int)) =~= Seq::<char>::empty());
    assert(head@ =~= until_colon(rest@));
    let mut k: usize = 0;
    assert(head@.skip(0) =~= head@);
    while k < head.len() && head[k] == '0'
        invariant
            k <= head.len(),
            strip_zeros(head@) == strip_zeros(head@.skip(k as int)),
        decreases head.len() - k,
    {
        assert(head@.skip(k as int)[0] == '0');
        assert(head@.skip(k as int).drop_first() =~= head@.skip(k + 1));
        k = k + 1;
    }
    let mut r: Vec<char> = Vec::new();
    let mut j: usize = k;
    while j < head.len()
        invariant
            k <= j <= head.len(),
            r@ == head@.subrange(k as int, j as int),
        decreases head.len() - j,
    {
        r.push(head[j]);
        assert(head@.subrange(k as int, j + 1) =~= head@.subrange(k as int, j as int).push(head@[j as int]));
        j = j + 1;
    }
    assert(r@ =~= head@.skip(k as int));
    if k < head.len() {
        assert(head@.skip(k as int)[0] != '0');
    }
    assert(strip_zeros(head@.skip(k as int)) == head@.skip(k as int));
    if r.len() == 0 {
        let mut z: Vec<char> = Vec::new();
        z.push('0');
        proof {
            reveal_strlit("0");
        }
        assert(z@ =~= "0"@);
        z
    } else {
        r
    }
}

impl WindowsUsbip {
    /// The port that device `bus_id` is attached on, read from the output
    /// of `usbip port`: the number of the latest `Port NN:` line before the
    /// first line that names the device, without leading zeros.
    pub fn port_for_bus_id(output: &str, bus_id: &str) -> (r: Option<String>)
        ensures
            crate::protocol::opt_view(r) == port_in(output@, bus_id@),
    {
        let lines = split_line_chars(&chars_of(output));
        let ghost ls = split_lines(output@);
        let slash = chars_of(concat("/", bus_id).as_str());
        let busid = chars_of(concat("busid=", bus_id).as_str());
        let prefix = chars_of("Port ");
        proof {
            reveal_strlit("Port ");
        }
        let mut port: Option<Vec<char>> = None;
        let mut j: usize = 0;
        assert(ls.skip(0) =~= ls);
        while j < lines.len()
            invariant
                j <= lines.len(),
                ls == lines@.map_values(|l: Vec<char>| l@),
                slash@ == "/"@ + bus_id@,
                busid@ == "busid="@ + bus_id@,
                prefix@ == "Port "@,
                prefix@.len() == 5,
                port_in(output@, bus_id@) == port_scan(
                    ls.skip(j as int),
                    bus_id@,
                    opt_chars(port),
                ),
            decreases lines.len() - j,
        {
            assert(ls.skip(j as int)[0] == lines@[j as int]@);
            assert(ls.skip(j as int).drop_first() =~= ls.skip(j + 1));
            let t = trim_chars(lines[j].as_slice());
            let mut starts = t.len() >= 5;
            if starts {
                let mut q: usize = 0;
                while q < 5
                    invariant
                        q <= 5 <= t@.len(),
                        prefix@ == "Port "@,
                        prefix@.len() == 5,
                        starts == (forall|m: int| 0 <= m < q ==> t@[m] == prefix@[m]),
                    decreases 5 - q,
                {
                    if t[q] != prefix[q] {
                        starts = false;
                    }
                    q = q + 1;
                }
                assert(starts == (prefix@ =~= t@.subrange(0, 5)));
            }
            assert(starts == "Port "@.is_prefix_of(t@));
            if starts {
                let mut rest: Vec<char> = Vec::new();
                let mut q: usize = 5;
                while q < t.len()
                    invariant
                        5 <= q <= t@.len(),
                        rest@ == t@.subrange(5, q as int),
                    decreases t.len() - q,
                {
                    rest.push(t[q]);
                    assert(t@.subrange(5, q + 1) =~= t@.subrange(5, q as int).push(t@[q as int]));
                    q = q + 1;
                }
                assert(rest@ =~= t@.skip(5));
                port = Some(port_number_of(rest.as_slice()));
            }
            let named = contains_chars(t.as_slice(), slash.as_slice()) || contains_chars(
                t.as_slice(),
                busid.as_slice(),
            );
            if named {
                match &port {
                    Some(p) => {
                        return Some(string_of(p.as_slice()));
                    },
                    None => {},
                }
            }
            j = j + 1;
        }
        None
    }
}

} // verus!

verus! {

/// What runs usbip-win2 for the client: each operation gives what the
/// command printed, or the error it failed with. The connection runs ask
/// for these operations through their actions; a runner carries them out.
pub trait UsbipRunner {
    /// Whether commands are only reported; a runner that does not say
    /// otherwise runs them.
    fn is_dry_run(&self) -> (r: bool)
        default_ensures
            !r,
    {
        false
    }

    /// `usbip port`.
    fn status(&self) -> Result<CommandOutput, ClientError>;

    /// What `host` exports.
    fn list(&self, host: &str) -> Result<CommandOutput, ClientError>;

    /// Attaches `bus_id` of `host`.
    fn attach(&self, host: &str, bus_id: &str) -> Result<CommandOutput, ClientError>;

    /// Stops the attach attempts of `bus_id` of `host`.
    fn stop_attach(&self, host: &str, bus_id: &str) -> Result<CommandOutput, ClientError>;

    /// Stops every attach attempt.
    fn stop_all(&self) -> Result<CommandOutput, ClientError>;

    /// Detaches `bus_id`.
    fn detach_bus_id(&self, bus_id: &str) -> Result<CommandOutput, ClientError>;

    /// The port `bus_id` is attached on, if any.
    fn attached_port(&self, bus_id: &str) -> Result<Option<String>, ClientError>;
}

} // verus!
