//! The decisions behind the system calls of the Windows side: how the
//! theme is stored in the registry, the definition of the elevated helper
//! task that writes the lock screen, and the byte form in which the task
//! scheduler takes that definition.

use vstd::prelude::*;

use crate::config::Mode;
use crate::text::{decimal, decimal_string};

verus! {

/// The mode that the registry value `SystemUsesLightTheme` stands for:
/// zero is dark; any other value, or no value at all, is light (the
/// system's default).
pub open spec fn theme_of_registry(value: Option<u32>) -> Mode {
    match value {
        Some(v) => if v == 0 {
            Mode::Dark
        } else {
            Mode::Light
        },
        None => Mode::Light,
    }
}

/// The value that `SystemUsesLightTheme` and `AppsUseLightTheme` take for a
/// mode.
pub open spec fn registry_value_of(mode: Mode) -> u32 {
    match mode {
        Mode::Light => 1,
        Mode::Dark => 0,
    }
}

/// The mode that a value of `SystemUsesLightTheme` (if it could be read)
/// stands for.
pub fn theme_from_registry(value: Option<u32>) -> (res: Mode)
    ensures
        res == theme_of_registry(value),
{
    match value {
        Some(v) => if v == 0 {
            Mode::Dark
        } else {
            Mode::Light
        },
        None => Mode::Light,
    }
}

/// The registry value that stands for `mode`.
pub fn registry_value(mode: Mode) -> (res: u32)
    ensures
        res == registry_value_of(mode),
{
    match mode {
        Mode::Light => 1,
        Mode::Dark => 0,
    }
}

/// Reading back the value written for a mode gives that mode.
pub proof fn law_registry_round_trip(mode: Mode)
    ensures
        theme_of_registry(Some(registry_value_of(mode))) == mode,
{
}

/// Name of the helper task in the task scheduler.
pub const LOCK_HELPER_TASK: &'static str = "DuoSwitchLockHelper";

/// The task definition up to the user account.
pub const TASK_XML_HEAD: &'static str = "<?xml version=\"1.0\" encoding=\"UTF-16\"?>
<Task version=\"1.4\" xmlns=\"http://schemas.microsoft.com/windows/2004/02/mit/task\">
  <RegistrationInfo>
    <Description>DuoSwitch 锁屏壁纸写入助手。仅按需触发，不设触发器。</Description>
  </RegistrationInfo>
  <Triggers />
  <Principals>
    <Principal id=\"Author\">
      <UserId>";

/// The task definition between the user account and the command.
pub const TASK_XML_MIDDLE: &'static str = "</UserId>
      <LogonType>InteractiveToken</LogonType>
      <RunLevel>HighestAvailable</RunLevel>
    </Principal>
  </Principals>
  <Settings>
    <MultipleInstancesPolicy>IgnoreNew</MultipleInstancesPolicy>
    <DisallowStartIfOnBatteries>false</DisallowStartIfOnBatteries>
    <StopIfGoingOnBatteries>false</StopIfGoingOnBatteries>
    <AllowHardTerminate>true</AllowHardTerminate>
    <StartWhenAvailable>true</StartWhenAvailable>
    <Enabled>true</Enabled>
    <Hidden>false</Hidden>
    <ExecutionTimeLimit>PT5M</ExecutionTimeLimit>
    <Priority>7</Priority>
  </Settings>
  <Actions Context=\"Author\">
    <Exec>
      <Command>";

/// The task definition after the command.
pub const TASK_XML_TAIL: &'static str = "</Command>
      <Arguments>--apply-lockscreen-auto</Arguments>
    </Exec>
  </Actions>
</Task>";

/// The definition of the helper task: it runs `command` with the argument
/// `--apply-lockscreen-auto`, with the highest privileges of the user
/// `computer\user`, only when triggered by hand.
pub open spec fn task_definition(computer: Seq<char>, user: Seq<char>, command: Seq<char>) -> Seq<char> {
    TASK_XML_HEAD@ + computer + "\\"@ + user + TASK_XML_MIDDLE@ + command + TASK_XML_TAIL@
}

/// The XML definition of the helper task for the executable `command` and
/// the account `user` on `computer`.
pub fn lock_helper_xml(computer: &str, user: &str, command: &str) -> (res: String)
    ensures
        res@ == task_definition(computer@, user@, command@),
{
    let mut xml = String::from_str(TASK_XML_HEAD);
    xml.append(computer);
    xml.append("\\");
    xml.append(user);
    xml.append(TASK_XML_MIDDLE);
    xml.append(command);
    xml.append(TASK_XML_TAIL);
    xml
}

/// The UTF-16 code units of a character: one below U+10000, otherwise a
/// surrogate pair.
pub open spec fn utf16_units(c: char) -> Seq<u16> {
    let v = c as int;
    if v < 0x10000 {
        seq![v as u16]
    } else {
        seq![(0xD800 + (v - 0x10000) / 0x400) as u16, (0xDC00 + (v - 0x10000) % 0x400) as u16]
    }
}

/// The two bytes of a code unit, low byte first.
pub open spec fn le_bytes(unit: u16) -> Seq<u8> {
    seq![(unit % 256) as u8, (unit / 256) as u8]
}

/// The bytes of one character in UTF-16LE.
pub open spec fn utf16le_char(c: char) -> Seq<u8> {
    let units = utf16_units(c);
    if units.len() == 1 {
        le_bytes(units[0])
    } else {
        le_bytes(units[0]) + le_bytes(units[1])
    }
}

/// A text in UTF-16LE.
pub open spec fn utf16le(text: Seq<char>) -> Seq<u8>
    decreases text.len(),
{
    if text.len() == 0 {
        Seq::empty()
    } else {
        utf16le(text.drop_last()) + utf16le_char(text.last())
    }
}

fn push_unit(bytes: &mut Vec<u8>, unit: u16)
    ensures
        final(bytes)@ == old(bytes)@ + le_bytes(unit),
{
    bytes.push((unit % 256) as u8);
    bytes.push((unit / 256) as u8);
    assert(final(bytes)@ =~= old(bytes)@ + le_bytes(unit));
}

/// The byte form in which the task scheduler takes a task definition:
/// UTF-16LE with a byte-order mark.
pub fn task_definition_bytes(xml: &str) -> (res: Vec<u8>)
    ensures
        res@ == seq![0xFFu8, 0xFEu8] + utf16le(xml@),
{
    let mut bytes: Vec<u8> = Vec::new();
    bytes.push(0xFF);
    bytes.push(0xFE);
    let n = xml.unicode_len();
    let mut i: usize = 0;
    while i < n
        invariant
            n == xml@.len(),
            i <= n,
            bytes@ == seq![0xFFu8, 0xFEu8] + utf16le(xml@.take(i as int)),
        decreases n - i,
    {
        let c = xml.get_char(i);
        let v = c as u32;
        let ghost before = bytes@;
        if v < 0x10000 {
            push_unit(&mut bytes, v as u16);
        } else {
            let w = v - 0x10000;
            push_unit(&mut bytes, (0xD800 + w / 0x400) as u16);
            push_unit(&mut bytes, (0xDC00 + w % 0x400) as u16);
        }
        proof {
            assert(xml@.take(i + 1).drop_last() =~= xml@.take(i as int));
            assert(xml@.take(i + 1).last() == c);
            assert(bytes@ =~= before + utf16le_char(c));
        }
        i = i + 1;
    }
    proof {
        assert(xml@.take(n as int) =~= xml@);
    }
    bytes
}

/// A text in UTF-16 code units.
pub open spec fn utf16(text: Seq<char>) -> Seq<u16>
    decreases text.len(),
{
    if text.len() == 0 {
        Seq::empty()
    } else {
        utf16(text.drop_last()) + utf16_units(text.last())
    }
}

/// A text as the system API takes it: UTF-16 with a terminating zero.
pub fn wide(text: &str) -> (res: Vec<u16>)
    ensures
        res@ == utf16(text@).push(0u16),
{
    let mut units: Vec<u16> = Vec::new();
    let n = text.unicode_len();
    let mut i: usize = 0;
    while i < n
        invariant
            n == text@.len(),
            i <= n,
            units@ == utf16(text@.take(i as int)),
        decreases n - i,
    {
        let c = text.get_char(i);
        let v = c as u32;
        let ghost before = units@;
        if v < 0x10000 {
            units.push(v as u16);
        } else {
            let w = v - 0x10000;
            units.push((0xD800 + w / 0x400) as u16);
            units.push((0xDC00 + w % 0x400) as u16);
        }
        proof {
            assert(text@.take(i + 1).drop_last() =~= text@.take(i as int));
            assert(text@.take(i + 1).last() == c);
            assert(units@ =~= before + utf16_units(c));
        }
        i = i + 1;
    }
    proof {
        assert(text@.take(n as int) =~= text@);
    }
    units.push(0);
    units
}

/// A signed number in decimal.
pub open spec fn signed_decimal(n: int) -> Seq<char> {
    if n < 0 {
        seq!['-'] + decimal((-n) as nat)
    } else {
        decimal(n as nat)
    }
}

/// An optional exit code as `{:?}` shows it.
pub open spec fn exit_code_text(code: Option<i32>) -> Seq<char> {
    match code {
        Some(c) => "Some("@ + signed_decimal(c as int) + ")"@,
        None => "None"@,
    }
}

fn format_exit_code(code: Option<i32>) -> (res: String)
    ensures
        res@ == exit_code_text(code),
{
    match code {
        Some(c) => {
            let mut text = String::from_str("Some(");
            if c < 0 {
                proof {
                    reveal_strlit("-");
                    assert("-"@ =~= seq!['-']);
                }
                text.append("-");
                let magnitude: u64 = (0i64 - c as i64) as u64;
                text.append(decimal_string(magnitude).as_str());
            } else {
                text.append(decimal_string(c as u64).as_str());
            }
            text.append(")");
            text
        },
        None => String::from_str("None"),
    }
}

/// The outcome of registering the helper task, given whether the task
/// scheduler succeeded and its exit code.
pub fn helper_install_result(succeeded: bool, exit_code: Option<i32>) -> (res: Result<(), String>)
    ensures
        res is Ok <==> succeeded,
        res matches Err(e) ==> e@ == "注册锁屏助手任务失败（schtasks 退出码 "@ + exit_code_text(exit_code)
            + "）"@,
{
    if succeeded {
        Ok(())
    } else {
        let mut message = String::from_str("注册锁屏助手任务失败（schtasks 退出码 ");
        message.append(format_exit_code(exit_code).as_str());
        message.append("）");
        Err(message)
    }
}

/// The outcome of triggering the helper task, given whether the task
/// scheduler succeeded.
pub fn helper_trigger_result(succeeded: bool) -> (res: Result<(), String>)
    ensures
        res is Ok <==> succeeded,
        res matches Err(e) ==> e@ == "触发锁屏助手失败，可能尚未注册"@,
{
    if succeeded {
        Ok(())
    } else {
        Err(String::from_str("触发锁屏助手失败，可能尚未注册"))
    }
}

/// Whether a value returned by `ShellExecuteW` reports success: values up
/// to 32 are error codes, larger ones instance handles.
pub open spec fn shell_succeeded(code: usize) -> bool {
    code > 32
}

/// The outcome of asking for an elevated instance of the program.
pub fn elevation_result(code: usize) -> (res: Result<(), String>)
    ensures
        res is Ok <==> shell_succeeded(code),
        res matches Err(e) ==> e@ == "请求管理员权限失败（ShellExecuteW 返回 "@ + decimal(code as nat)
            + "），可能是被 UAC 取消"@,
{
    if code > 32 {
        Ok(())
    } else {
        let mut message = String::from_str("请求管理员权限失败（ShellExecuteW 返回 ");
        message.append(decimal_string(code as u64).as_str());
        message.append("），可能是被 UAC 取消");
        Err(message)
    }
}

/// The outcome of opening `uri` with its default program.
pub fn open_uri_result(uri: &str, code: usize) -> (res: Result<(), String>)
    ensures
        res is Ok <==> shell_succeeded(code),
        res matches Err(e) ==> e@ == "打开 "@ + uri@ + " 失败（返回 "@ + decimal(code as nat) + "）"@,
{
    if code > 32 {
        Ok(())
    } else {
        let mut message = String::from_str("打开 ");
        message.append(uri);
        message.append(" 失败（返回 ");
        message.append(decimal_string(code as u64).as_str());
        message.append("）");
        Err(message)
    }
}

} // verus!
