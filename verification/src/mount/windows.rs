//! The Windows mount command line, over `mount.exe`.

use vstd::prelude::*;
use crate::errors::OpendalMountError;
use crate::mount::{args_view, MountCommand};

verus! {

/// The option string handed to `mount.exe -o`; file access is read-write
/// (6) or read-only (4).
pub open spec fn spec_windows_opts(writable: bool) -> Seq<char> {
    "anon,nolock,mtype=soft,fileaccess="@ + (if writable {
        "6"@
    } else {
        "4"@
    }) + ",casesensitive,lang=ansi,rsize=128,wsize=128,timeout=60,retry=2"@
}

/// `mount.exe -o <options> \\IP\\ DRIVE:`. Windows requires the NFS port
/// to be 111; any other port is refused as a mount failure.
pub fn build_mount_command(ip: &str, hostport: u16, mount_drive: &str, writable: bool) -> (r:
    Result<MountCommand, OpendalMountError>)
    ensures
        hostport != 111 ==> (r matches Err(OpendalMountError::MountFailure {
            mount_point,
            reason,
        }) && mount_point@ == mount_drive@ && reason@ == "NFS mount port must be 111"@),
        hostport == 111 ==> (r matches Ok(c) && c.program@ == "mount.exe"@ && args_view(c.args@)
            == seq![
            "-o"@,
            spec_windows_opts(writable),
            "\\\\"@ + ip@ + "\\\\"@,
            mount_drive@ + ":"@,
        ]),
{
    if hostport != 111 {
        return Err(
            OpendalMountError::MountFailure {
                mount_point: mount_drive.to_owned(),
                reason: "NFS mount port must be 111".to_owned(),
            },
        );
    }
    let mut opts = "anon,nolock,mtype=soft,fileaccess=".to_owned();
    opts.append(if writable {
        "6"
    } else {
        "4"
    });
    opts.append(",casesensitive,lang=ansi,rsize=128,wsize=128,timeout=60,retry=2");
    let mut target = "\\\\".to_owned();
    target.append(ip);
    target.append("\\\\");
    let mut drive = mount_drive.to_owned();
    drive.append(":");
    proof {
        assert(opts@ =~= spec_windows_opts(writable));
        assert(target@ =~= "\\\\"@ + ip@ + "\\\\"@);
        assert(drive@ =~= mount_drive@ + ":"@);
    }
    let mut args: Vec<String> = Vec::new();
    args.push("-o".to_owned());
    args.push(opts);
    args.push(target);
    args.push(drive);
    let c = MountCommand { program: "mount.exe".to_owned(), args };
    proof {
        assert(args_view(c.args@) =~= seq![
            "-o"@,
            spec_windows_opts(writable),
            "\\\\"@ + ip@ + "\\\\"@,
            mount_drive@ + ":"@,
        ]);
    }
    Ok(c)
}

} // verus!
