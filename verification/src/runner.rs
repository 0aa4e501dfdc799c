use vstd::prelude::*;
use crate::errors::{Error, ErrorKind};
use crate::strutil::{i32_to_string, join_spaces, spec_decimal_int, spec_join_spaces};

verus! {

/// The message reported when the command `cmd` exits unsuccessfully with
/// exit status `code`, or is killed before one is set.
pub open spec fn spec_failure_message(cmd: Seq<Seq<char>>, code: Option<i32>) -> Seq<char> {
    match code {
        Some(c) => "command "@ + spec_join_spaces(cmd) + " failed with exit code "@
            + spec_decimal_int(c as int) + "."@,
        None => "command "@ + spec_join_spaces(cmd) + " failed."@,
    }
}

/// Classifies how an external command ended: a successful exit passes, and
/// any other outcome is a container engine failure naming the attempted
/// command and, when one was set, the exit code.
pub fn classify_exit(command: &Vec<String>, success: bool, code: Option<i32>) -> (r: Result<
    (),
    Error,
>)
    ensures
        r is Ok <==> success,
        (r matches Err(e) ==> e.spec_kind() == ErrorKind::ContainerEngineFailure
            && e.spec_message() == spec_failure_message(command.deep_view(), code)),
{
    if success {
        return Ok(());
    }
    let mut message = String::new();
    message.append("command ");
    message.append(join_spaces(command).as_str());
    match code {
        Some(c) => {
            message.append(" failed with exit code ");
            message.append(i32_to_string(c).as_str());
            message.append(".");
            proof {
                assert(message@ =~= spec_failure_message(command.deep_view(), code));
            }
        },
        None => {
            message.append(" failed.");
            proof {
                assert(message@ =~= spec_failure_message(command.deep_view(), code));
            }
        },
    }
    Err(Error::new(ErrorKind::ContainerEngineFailure, message.as_str()))
}

} // verus!
