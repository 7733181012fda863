//! Opening a serial port, and what its worker makes of a completed read or
//! write.

use crate::serial::config::SerialConfig;
use crate::serial::error::io_failure;
use crate::serial::error::IoKind;
use crate::serial::error::SerialError;
use crate::serial::error::TransportError;
use crate::text::push_text;
use crate::text::text;
use vstd::prelude::*;
use vstd::string::*;

verus! {

/// Whether a device name already carries the device prefix.
pub open spec fn has_device_prefix(path: Seq<char>) -> bool {
    path.len() >= 4 && path.take(4) == seq!['\\', '\\', '.', '\\']
}

/// The name handed to the operating system: `\\.\` in front, once. Ports from
/// the tenth on cannot be opened without it.
pub fn device_path(path: &str) -> (r: String)
    ensures
        has_device_prefix(path@) ==> r@ == path@,
        !has_device_prefix(path@) ==> r@ == seq!['\\', '\\', '.', '\\'] + path@,
{
    let prefixed: bool = path.unicode_len() >= 4 && path.get_char(0) == '\\' && path.get_char(1)
        == '\\' && path.get_char(2) == '.' && path.get_char(3) == '\\';
    proof {
        if prefixed {
            assert(path@.take(4) =~= seq!['\\', '\\', '.', '\\']);
        } else if path@.len() >= 4 {
            assert(path@.take(4)[0] == path@[0] && path@.take(4)[1] == path@[1]);
            assert(path@.take(4)[2] == path@[2] && path@.take(4)[3] == path@[3]);
        }
    }
    if prefixed {
        text(path)
    } else {
        let mut out = String::new();
        out.push('\\');
        out.push('\\');
        out.push('.');
        out.push('\\');
        push_text(&mut out, path);
        assert(out@ =~= seq!['\\', '\\', '.', '\\'] + path@);
        out
    }
}

pub const ERROR_FILE_NOT_FOUND: u32 = 2;

pub const ERROR_PATH_NOT_FOUND: u32 = 3;

pub const ERROR_ACCESS_DENIED: u32 = 5;

/// What a failed open says: the operating system's error `code`, and the text
/// it shows for codes that are not told apart here.
pub fn map_create_file_error(code: u32, path: &str, os_text: &str) -> (r: SerialError)
    ensures
        (code == ERROR_FILE_NOT_FOUND || code == ERROR_PATH_NOT_FOUND) ==> (r matches
            SerialError::DeviceNotFound(p) && p@ == path@),
        code == ERROR_ACCESS_DENIED ==> (r matches SerialError::PermissionDenied(p) && p@
            == path@),
        code != ERROR_FILE_NOT_FOUND && code != ERROR_PATH_NOT_FOUND && code
            != ERROR_ACCESS_DENIED ==> (r matches SerialError::Io(why) && why@ == os_text@),
{
    if code == ERROR_FILE_NOT_FOUND || code == ERROR_PATH_NOT_FOUND {
        SerialError::DeviceNotFound(text(path))
    } else if code == ERROR_ACCESS_DENIED {
        SerialError::PermissionDenied(text(path))
    } else {
        SerialError::Io(text(os_text))
    }
}

/// The bytes of one completed read: `count` of the buffer's. A read that
/// completes without a byte has timed out.
pub fn worker_read(buffer: &[u8], count: usize) -> (r: Result<Vec<u8>, TransportError>)
    requires
        count <= buffer@.len(),
    ensures
        count == 0 ==> r == Err::<Vec<u8>, TransportError>(TransportError::ReadTimeout),
        count > 0 ==> (r matches Ok(bytes) && bytes@ == buffer@.take(count as int)),
{
    if count == 0 {
        return Err(TransportError::ReadTimeout);
    }
    let mut bytes: Vec<u8> = Vec::new();
    let mut i: usize = 0;
    while i < count
        invariant
            i <= count <= buffer@.len(),
            bytes@ == buffer@.take(i as int),
        decreases count - i,
    {
        bytes.push(buffer[i]);
        i += 1;
        assert(bytes@ =~= buffer@.take(i as int));
    }
    Ok(bytes)
}

/// The outcome of one completed write of `len` bytes of which `written` went
/// out. A short write has timed out.
pub fn worker_write(len: usize, written: usize) -> (r: Result<usize, TransportError>)
    ensures
        written < len ==> r == Err::<usize, TransportError>(TransportError::WriteTimeout),
        written >= len ==> r == Ok::<usize, TransportError>(written),
{
    if written < len {
        Err(TransportError::WriteTimeout)
    } else {
        Ok(written)
    }
}

/// Whether `bit` is set in a modem status word.
pub fn modem_status_bit(status: u32, bit: u32) -> (r: bool)
    ensures
        r <==> status & bit != 0,
{
    status & bit != 0
}

/// What a caller is told when the worker that serves the port is gone.
pub fn worker_gone_error() -> (r: TransportError)
    ensures
        r matches TransportError::Io(failure) && failure.kind == IoKind::BrokenPipe
            && failure.message@
            == "cat-transport-serial: Windows worker thread is no longer running"@,
{
    TransportError::Io(
        io_failure(
            IoKind::BrokenPipe,
            "cat-transport-serial: Windows worker thread is no longer running",
        ),
    )
}

/// The steps of opening a port, in the order they are taken.
#[derive(Debug, Clone, Copy, PartialEq, Eq, Structural)]
pub enum OpenStep {
    CreateFile,
    Configure,
    SetTimeouts,
    /// Close the handle again: the port could not be set up.
    CloseHandle,
    StartWorker,
    AssertRts,
    AssertDtr,
    Opened,
    Failed,
}

/// The step after `step`, which went well or did not.
///
/// A handle that was opened and could not be set up is closed. The two modem
/// lines are raised only where `config` asks for it, and a line that cannot be
/// raised does not fail the opening.
pub open spec fn open_successor(step: OpenStep, ok: bool, config: SerialConfig) -> OpenStep {
    match step {
        OpenStep::CreateFile => if ok {
            OpenStep::Configure
        } else {
            OpenStep::Failed
        },
        OpenStep::Configure => if ok {
            OpenStep::SetTimeouts
        } else {
            OpenStep::CloseHandle
        },
        OpenStep::SetTimeouts => if ok {
            OpenStep::StartWorker
        } else {
            OpenStep::CloseHandle
        },
        OpenStep::CloseHandle => OpenStep::Failed,
        OpenStep::StartWorker => if config.initial_rts {
            OpenStep::AssertRts
        } else {
            open_successor_of_rts(config)
        },
        OpenStep::AssertRts => open_successor_of_rts(config),
        OpenStep::AssertDtr => OpenStep::Opened,
        OpenStep::Opened => OpenStep::Opened,
        OpenStep::Failed => OpenStep::Failed,
    }
}

pub open spec fn open_successor_of_rts(config: SerialConfig) -> OpenStep {
    if config.initial_dtr {
        OpenStep::AssertDtr
    } else {
        OpenStep::Opened
    }
}

/// The step after `step`, which went well or did not.
pub fn next_open_step(step: OpenStep, ok: bool, config: &SerialConfig) -> (r: OpenStep)
    ensures
        r == open_successor(step, ok, *config),
{
    match step {
        OpenStep::CreateFile => if ok {
            OpenStep::Configure
        } else {
            OpenStep::Failed
        },
        OpenStep::Configure => if ok {
            OpenStep::SetTimeouts
        } else {
            OpenStep::CloseHandle
        },
        OpenStep::SetTimeouts => if ok {
            OpenStep::StartWorker
        } else {
            OpenStep::CloseHandle
        },
        OpenStep::CloseHandle => OpenStep::Failed,
        OpenStep::StartWorker => if config.initial_rts {
            OpenStep::AssertRts
        } else if config.initial_dtr {
            OpenStep::AssertDtr
        } else {
            OpenStep::Opened
        },
        OpenStep::AssertRts => if config.initial_dtr {
            OpenStep::AssertDtr
        } else {
            OpenStep::Opened
        },
        OpenStep::AssertDtr => OpenStep::Opened,
        OpenStep::Opened => OpenStep::Opened,
        OpenStep::Failed => OpenStep::Failed,
    }
}

/// Opening a port raises DTR only where the configuration asks for it, which
/// the default configuration does not.
pub proof fn dtr_is_raised_only_on_request(step: OpenStep, ok: bool, config: SerialConfig)
    ensures
        open_successor(step, ok, config) == OpenStep::AssertDtr ==> config.initial_dtr,
        open_successor(step, ok, config) == OpenStep::AssertRts ==> config.initial_rts,
        !SerialConfig::default_config().initial_dtr,
{
}

/// A handle that was opened is closed before an opening fails.
pub proof fn a_failed_opening_closes_its_handle(step: OpenStep, ok: bool, config: SerialConfig)
    requires
        open_successor(step, ok, config) == OpenStep::Failed,
        step != OpenStep::Failed,
    ensures
        step == OpenStep::CreateFile || step == OpenStep::CloseHandle,
{
}

/// A device name has the prefix exactly where it begins with its four
/// characters.
pub proof fn a_prefix_is_four_characters(path: Seq<char>)
    ensures
        has_device_prefix(path) <==> path.len() >= 4 && path[0] == '\\' && path[1] == '\\' && path[2]
            == '.' && path[3] == '\\',
        has_device_prefix(seq!['\\', '\\', '.', '\\'] + path),
{
    let prefix = seq!['\\', '\\', '.', '\\'];
    assert((prefix + path).take(4) =~= prefix);
    if path.len() >= 4 {
        assert(path.take(4)[0] == path[0] && path.take(4)[1] == path[1] && path.take(4)[2]
            == path[2] && path.take(4)[3] == path[3]);
        if path[0] == '\\' && path[1] == '\\' && path[2] == '.' && path[3] == '\\' {
            assert(path.take(4) =~= prefix);
        }
    }
}

/// An opening in which everything goes well: the port is created, configured,
/// given its timeouts and its worker, in that order; then RTS is raised exactly
/// where the configuration asks for it, and DTR after it exactly where the
/// configuration asks for that; then it is open.
pub proof fn an_opening_goes_step_by_step(config: SerialConfig)
    ensures
        open_successor(OpenStep::CreateFile, true, config) == OpenStep::Configure,
        open_successor(OpenStep::Configure, true, config) == OpenStep::SetTimeouts,
        open_successor(OpenStep::SetTimeouts, true, config) == OpenStep::StartWorker,
        ({
            let first = open_successor(OpenStep::StartWorker, true, config);
            let second = open_successor(first, true, config);
            let third = open_successor(second, true, config);
            &&& third == OpenStep::Opened
            &&& first == OpenStep::AssertRts <==> config.initial_rts
            &&& (first == OpenStep::AssertDtr || second == OpenStep::AssertDtr)
                <==> config.initial_dtr
        }),
{
}

/// A step that fails: what could not be created is not open and needs no
/// closing, what could not be set up is closed and not open, and a modem line
/// that cannot be raised does not stop the opening.
pub proof fn a_step_that_fails_ends_the_opening(config: SerialConfig)
    ensures
        open_successor(OpenStep::CreateFile, false, config) == OpenStep::Failed,
        open_successor(OpenStep::Configure, false, config) == OpenStep::CloseHandle,
        open_successor(OpenStep::SetTimeouts, false, config) == OpenStep::CloseHandle,
        forall|ok: bool|
            #[trigger] open_successor(OpenStep::CloseHandle, ok, config) == OpenStep::Failed,
        forall|ok: bool| #[trigger] open_successor(OpenStep::Failed, ok, config) == OpenStep::Failed,
        forall|ok: bool| #[trigger] open_successor(OpenStep::Opened, ok, config) == OpenStep::Opened,
        open_successor(OpenStep::AssertRts, false, config) == open_successor(
            OpenStep::AssertRts,
            true,
            config,
        ),
        open_successor(OpenStep::AssertDtr, false, config) == OpenStep::Opened,
{
}

} // verus!
