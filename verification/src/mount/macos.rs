//! The macOS mount and umount command lines.

use vstd::prelude::*;
use crate::mount::{args_view, MountCommand};
use crate::text::{spec_dec, u64_to_dec};

verus! {

/// The option string handed to `/sbin/mount -t nfs -o`.
pub open spec fn spec_macos_opts(hostport: u16, writable: bool) -> Seq<char> {
    if writable {
        "nolocks,vers=3,tcp,port="@ + spec_dec(hostport as nat) + ",mountport="@ + spec_dec(
            hostport as nat,
        ) + ",soft"@
    } else {
        "rdonly,nolocks,vers=3,tcp,rsize=131072,actimeo=120,port="@ + spec_dec(hostport as nat)
            + ",mountport="@ + spec_dec(hostport as nat)
    }
}

/// The `IP:/PREFIX` remote-tree argument.
pub open spec fn spec_macos_target(ip: Seq<char>, prefix: Seq<char>) -> Seq<char> {
    ip + ":/"@ + prefix
}

/// Builds the macOS attach and detach command lines.
pub struct MacosMounter;

impl MacosMounter {
    /// macOS needs no prior capability probe.
    pub fn check() -> (r: bool)
        ensures
            r,
    {
        true
    }

    /// `/sbin/mount -t nfs -o <options> IP:/PREFIX MOUNTPOINT`.
    pub fn mount_command(ip: &str, hostport: u16, prefix: &str, mount_path: &str, writable: bool)
        -> (r: MountCommand)
        ensures
            r.program@ == "/sbin/mount"@,
            args_view(r.args@) == seq![
                "-t"@,
                "nfs"@,
                "-o"@,
                spec_macos_opts(hostport, writable),
                spec_macos_target(ip@, prefix@),
                mount_path@,
            ],
    {
        let mut opts = if writable {
            "nolocks,vers=3,tcp,port=".to_owned()
        } else {
            "rdonly,nolocks,vers=3,tcp,rsize=131072,actimeo=120,port=".to_owned()
        };
        let port = u64_to_dec(hostport as u64);
        opts.append(port.as_str());
        opts.append(",mountport=");
        opts.append(port.as_str());
        if writable {
            opts.append(",soft");
        }
        let mut target = ip.to_owned();
        target.append(":/");
        target.append(prefix);
        proof {
            assert(opts@ =~= spec_macos_opts(hostport, writable));
            assert(target@ =~= spec_macos_target(ip@, prefix@));
        }
        let mut args: Vec<String> = Vec::new();
        args.push("-t".to_owned());
        args.push("nfs".to_owned());
        args.push("-o".to_owned());
        args.push(opts);
        args.push(target);
        args.push(mount_path.to_owned());
        let r = MountCommand { program: "/sbin/mount".to_owned(), args };
        proof {
            assert(args_view(r.args@) =~= seq![
                "-t"@,
                "nfs"@,
                "-o"@,
                spec_macos_opts(hostport, writable),
                spec_macos_target(ip@, prefix@),
                mount_path@,
            ]);
        }
        r
    }

    /// `diskutil umount force MOUNTPOINT`.
    pub fn umount_command(mount_path: &str) -> (r: MountCommand)
        ensures
            r.program@ == "diskutil"@,
            args_view(r.args@) == seq!["umount"@, "force"@, mount_path@],
    {
        let mut args: Vec<String> = Vec::new();
        args.push("umount".to_owned());
        args.push("force".to_owned());
        args.push(mount_path.to_owned());
        let r = MountCommand { program: "diskutil".to_owned(), args };
        proof {
            assert(args_view(r.args@) =~= seq!["umount"@, "force"@, mount_path@]);
        }
        r
    }
}

} // verus!
