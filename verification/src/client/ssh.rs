//! Commands on the remote host.
use crate::number::decimal_of;
use crate::outside::utf8::text_lossy;
use crate::text::{cat3, cat4};
use vstd::prelude::*;

verus! {

/// How to reach the remote host.
#[derive(Debug)]
pub struct SSHConfig {
    pub hostname: String,
    pub port: u16,
    pub user: String,
    pub password: Option<String>,
    pub private_key_path: Option<String>,
}

/// How to log in.
#[derive(Debug)]
pub enum Auth {
    Password(String),
    /// With the private key in this file.
    PrivateKey(String),
}

/// Chooses how to log in: with the password where there is one, else with the key.
pub fn choose_auth(password: &Option<String>, private_key_path: &Option<String>) -> (r: Result<
    Auth,
    String,
>)
    ensures
        match (*password, *private_key_path) {
            (Some(p), _) => r matches Ok(Auth::Password(q)) && q@ == p@,
            (None, Some(k)) => r matches Ok(Auth::PrivateKey(q)) && q@ == k@,
            (None, None) => r matches Err(e) && e@ == "未配置认证方式：需要密码或私钥路径"@,
        },
{
    match password {
        Some(p) => Ok(Auth::Password(p.clone())),
        None => match private_key_path {
            Some(k) => Ok(Auth::PrivateKey(k.clone())),
            None => Err("未配置认证方式：需要密码或私钥路径".to_owned()),
        },
    }
}

/// Judges the answer to the login.
pub fn check_auth(success: bool) -> (r: Result<(), String>)
    ensures
        r is Ok <==> success,
        r matches Err(e) ==> e@ == "SSH 认证失败"@,
{
    if success {
        Ok(())
    } else {
        Err("SSH 认证失败".to_owned())
    }
}

/// What a command that ran to its end left.
#[derive(Debug)]
pub struct ExecOutput {
    pub exit_code: u32,
    pub output: String,
}

/// What comes in while a command runs.
#[derive(Debug)]
pub enum ExecEvent {
    /// Output of the command.
    Data(Vec<u8>),
    /// Output of another kind; kind one is for errors.
    ExtendedData { ext: u32, data: Vec<u8> },
    /// The command has ended.
    ExitStatus(u32),
    Other,
}

/// The bytes that one event adds to what the command put out: its output, and what it
/// put out for errors.
pub open spec fn event_bytes(event: ExecEvent) -> Seq<u8> {
    match event {
        ExecEvent::Data(data) => data@,
        ExecEvent::ExtendedData { ext, data } => if ext == 1 {
            data@
        } else {
            Seq::empty()
        },
        _ => Seq::empty(),
    }
}

/// All that a command put out, in the order in which it came.
pub open spec fn output_bytes(events: Seq<ExecEvent>) -> Seq<u8>
    decreases events.len(),
{
    if events.len() == 0 {
        Seq::empty()
    } else {
        output_bytes(events.drop_last()) + event_bytes(events.last())
    }
}

/// The last exit code that came.
pub open spec fn exit_code(events: Seq<ExecEvent>) -> Option<u32>
    decreases events.len(),
{
    if events.len() == 0 {
        None
    } else {
        match events.last() {
            ExecEvent::ExitStatus(code) => Some(code),
            _ => exit_code(events.drop_last()),
        }
    }
}

/// Collects what a command puts out until its channel closes.
#[derive(Debug)]
pub struct ExecCollector {
    pub code: Option<u32>,
    pub output: Vec<u8>,
}

impl ExecCollector {
    pub fn new() -> (r: ExecCollector)
        ensures
            r.code is None,
            r.output@.len() == 0,
    {
        ExecCollector { code: None, output: Vec::new() }
    }

    /// Takes what came in.
    pub fn accept(&mut self, event: &ExecEvent)
        ensures
            final(self).output@ == old(self).output@ + event_bytes(*event),
            final(self).code == match *event {
                ExecEvent::ExitStatus(code) => Some(code),
                _ => old(self).code,
            },
    {
        match event {
            ExecEvent::Data(data) => {
                self.output.extend_from_slice(data.as_slice());
            },
            ExecEvent::ExtendedData { ext, data } => {
                if *ext == 1 {
                    self.output.extend_from_slice(data.as_slice());
                }
            },
            ExecEvent::ExitStatus(code) => {
                self.code = Some(*code);
            },
            ExecEvent::Other => {},
        }
        assert(self.output@ == old(self).output@ + event_bytes(*event));
    }

    /// What the command left. One that ended without an exit code failed.
    pub fn finish(self) -> (r: Result<ExecOutput, String>)
        ensures
            r is Ok <==> self.code is Some,
            r matches Ok(out) ==> out.exit_code == self.code->0 && out.output@
                == crate::outside::utf8::readable(self.output@),
            r matches Err(e) ==> e@ == "远程命令执行完毕，但未收到退出码"@,
    {
        let output = text_lossy(self.output.as_slice());
        match self.code {
            Some(exit_code) => Ok(ExecOutput { exit_code, output }),
            None => Err("远程命令执行完毕，但未收到退出码".to_owned()),
        }
    }
}

/// Runs a command to its end: all that came in until its channel closed.
pub fn exec_once(events: &Vec<ExecEvent>) -> (r: Result<ExecOutput, String>)
    ensures
        r is Ok <==> exit_code(events@) is Some,
        r matches Ok(out) ==> out.exit_code == exit_code(events@)->0 && out.output@
            == crate::outside::utf8::readable(output_bytes(events@)),
        r matches Err(e) ==> e@ == "远程命令执行完毕，但未收到退出码"@,
{
    let mut collector = ExecCollector::new();
    for i in 0..events.len()
        invariant
            collector.output@ == output_bytes(events@.take(i as int)),
            collector.code == exit_code(events@.take(i as int)),
    {
        assert(events@.take(i + 1).drop_last() == events@.take(i as int));
        collector.accept(&events[i]);
    }
    assert(events@.take(events@.len() as int) == events@);
    collector.finish()
}

/// Where an archive is put on the remote host before it is unpacked.
pub open spec fn archive_path(timestamp: u64) -> Seq<char> {
    "/tmp/gmf_upload_"@ + crate::number::decimal(timestamp as nat) + ".tar.gz"@
}

/// Names the archive after the time in seconds.
pub fn name_archive(timestamp: u64) -> (r: String)
    ensures
        r@ == archive_path(timestamp),
{
    cat3("/tmp/gmf_upload_", decimal_of(timestamp).as_str(), ".tar.gz")
}

/// The command that unpacks an archive into a directory, and removes it.
pub open spec fn extract_command(dir: Seq<char>, archive: Seq<char>) -> Seq<char> {
    "mkdir -p \""@ + dir + "\" && tar -xf \""@ + archive + "\" -C \""@ + dir + "\" && rm \""@
        + archive + "\""@
}

/// Writes the command that unpacks an archive.
pub fn write_extract_command(dir: &str, archive: &str) -> (r: String)
    ensures
        r@ == extract_command(dir@, archive@),
{
    let mut out = cat4("mkdir -p \"", dir, "\" && tar -xf \"", archive);
    out.append("\" -C \"");
    out.append(dir);
    out.append("\" && rm \"");
    out.append(archive);
    out.append("\"");
    out
}

/// Judges how the unpacking ended.
pub fn check_extracted(out: &ExecOutput) -> (r: Result<(), String>)
    ensures
        r is Ok <==> out.exit_code == 0,
        r matches Err(e) ==> e@ == "解压失败，退出码: "@ + crate::number::decimal(
            out.exit_code as nat,
        ) + ", 输出: "@ + out.output@,
{
    if out.exit_code != 0 {
        Err(
            cat4(
                "解压失败，退出码: ",
                decimal_of(out.exit_code as u64).as_str(),
                ", 输出: ",
                out.output.as_str(),
            ),
        )
    } else {
        Ok(())
    }
}

/// All that a command put out is kept, in the order in which it came: its output and what it
/// put out for errors, and nothing else.
pub proof fn law_output_is_kept_in_order(a: Seq<ExecEvent>, b: Seq<ExecEvent>, data: Vec<u8>)
    ensures
        output_bytes(a + b) == output_bytes(a) + output_bytes(b),
        output_bytes(a.push(ExecEvent::Data(data))) == output_bytes(a) + data@,
        output_bytes(a.push(ExecEvent::ExtendedData { ext: 1, data })) == output_bytes(a) + data@,
        forall|ext: u32|
            ext != 1 ==> output_bytes(
                #[trigger] a.push(ExecEvent::ExtendedData { ext, data }),
            ) == output_bytes(a),
        forall|code: u32|
            output_bytes(#[trigger] a.push(ExecEvent::ExitStatus(code))) == output_bytes(a),
        output_bytes(Seq::<ExecEvent>::empty()) == Seq::<u8>::empty(),
    decreases b.len(),
{
    assert forall|e: ExecEvent| output_bytes(#[trigger] a.push(e)) == output_bytes(a)
        + event_bytes(e) by {
        assert(a.push(e).drop_last() =~= a);
    }
    assert forall|ext: u32| ext != 1 implies output_bytes(
        #[trigger] a.push(ExecEvent::ExtendedData { ext, data }),
    ) == output_bytes(a) by {
        assert(output_bytes(a) + Seq::<u8>::empty() =~= output_bytes(a));
    }
    assert forall|code: u32| output_bytes(#[trigger] a.push(ExecEvent::ExitStatus(code)))
        == output_bytes(a) by {
        assert(output_bytes(a) + Seq::<u8>::empty() =~= output_bytes(a));
    }
    if b.len() == 0 {
        assert(a + b =~= a);
        assert(output_bytes(a) + output_bytes(b) =~= output_bytes(a));
    } else {
        law_output_is_kept_in_order(a, b.drop_last(), data);
        assert((a + b).drop_last() =~= a + b.drop_last());
        assert(output_bytes(a) + (output_bytes(b.drop_last()) + event_bytes(b.last())) =~= (
        output_bytes(a) + output_bytes(b.drop_last())) + event_bytes(b.last()));
    }
}

/// A command ended with the code that came last, and with none when none came.
pub proof fn law_last_exit_code_counts(events: Seq<ExecEvent>, event: ExecEvent, code: u32)
    ensures
        exit_code(events.push(ExecEvent::ExitStatus(code))) == Some(code),
        !(event is ExitStatus) ==> exit_code(events.push(event)) == exit_code(events),
        exit_code(Seq::<ExecEvent>::empty()) is None,
{
    assert(events.push(event).drop_last() =~= events);
    assert(events.push(ExecEvent::ExitStatus(code)).drop_last() =~= events);
}

/// Archives of different times do not meet.
pub proof fn law_archives_differ(a: u64, b: u64)
    requires
        archive_path(a) == archive_path(b),
    ensures
        a == b,
{
    reveal_strlit(".tar.gz");
    let head = "/tmp/gmf_upload_"@;
    let tail = ".tar.gz"@;
    let x = crate::number::decimal(a as nat) + tail;
    let y = crate::number::decimal(b as nat) + tail;
    assert(x =~= archive_path(a).skip(head.len() as int));
    assert(y =~= archive_path(b).skip(head.len() as int));
    crate::number::law_decimal_ends_at_no_digit(a as nat, b as nat, tail, tail);
}

/// An archive is unpacked into the directory, which is made first, and taken away at last.
pub proof fn law_archive_is_unpacked(dir: Seq<char>, archive: Seq<char>)
    ensures
        extract_command(dir, archive) == "mkdir -p "@ + quoted(dir) + " && "@ + "tar -xf "@
            + quoted(archive) + " -C "@ + quoted(dir) + " && "@ + "rm "@ + quoted(archive),
{
    reveal_strlit("mkdir -p \"");
    reveal_strlit("mkdir -p ");
    reveal_strlit("\" && tar -xf \"");
    reveal_strlit(" && ");
    reveal_strlit("tar -xf ");
    reveal_strlit("\" -C \"");
    reveal_strlit(" -C ");
    reveal_strlit("\" && rm \"");
    reveal_strlit("rm ");
    reveal_strlit("\"");
    assert(extract_command(dir, archive) =~= "mkdir -p "@ + quoted(dir) + " && "@ + "tar -xf "@
        + quoted(archive) + " -C "@ + quoted(dir) + " && "@ + "rm "@ + quoted(archive));
}

/// A text between double quotes.
pub open spec fn quoted(text: Seq<char>) -> Seq<char> {
    seq!['"'] + text + seq!['"']
}

}
