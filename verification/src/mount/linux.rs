//! The Linux mount command line, over `mount.nfs`.

use vstd::prelude::*;
use crate::mount::{args_view, MountCommand};
use crate::text::{spec_dec, u64_to_dec};

verus! {

/// The option string handed to `mount.nfs -o`; a writable mount adds the
/// large write size.
pub open spec fn spec_linux_opts(hostport: u16, writable: bool) -> Seq<char> {
    let head = if writable {
        "user,noacl,nolock,vers=3,tcp,wsize=1048576,rsize=131072,actimeo=120,port="@
    } else {
        "user,noacl,nolock,vers=3,tcp,rsize=131072,actimeo=120,port="@
    };
    head + spec_dec(hostport as nat) + ",mountport="@ + spec_dec(hostport as nat)
}

/// `[sudo] mount.nfs -o <options> IP:/ MOUNTPOINT`.
pub fn build_mount_command(ip: &str, hostport: u16, mount_path: &str, writable: bool, sudo: bool)
    -> (r: MountCommand)
    ensures
        r.program@ == (if sudo {
            "sudo"@
        } else {
            "mount.nfs"@
        }),
        args_view(r.args@) == (if sudo {
            seq!["mount.nfs"@]
        } else {
            Seq::empty()
        }) + seq!["-o"@, spec_linux_opts(hostport, writable), ip@ + ":/"@, mount_path@],
{
    let mut opts = if writable {
        "user,noacl,nolock,vers=3,tcp,wsize=1048576,rsize=131072,actimeo=120,port=".to_owned()
    } else {
        "user,noacl,nolock,vers=3,tcp,rsize=131072,actimeo=120,port=".to_owned()
    };
    let port = u64_to_dec(hostport as u64);
    opts.append(port.as_str());
    opts.append(",mountport=");
    opts.append(port.as_str());
    let mut target = ip.to_owned();
    target.append(":/");
    proof {
        assert(opts@ =~= spec_linux_opts(hostport, writable));
        assert(target@ =~= ip@ + ":/"@);
    }
    let mut args: Vec<String> = Vec::new();
    let program = if sudo {
        args.push("mount.nfs".to_owned());
        "sudo".to_owned()
    } else {
        "mount.nfs".to_owned()
    };
    args.push("-o".to_owned());
    args.push(opts);
    args.push(target);
    args.push(mount_path.to_owned());
    let r = MountCommand { program, args };
    proof {
        assert(args_view(r.args@) =~= (if sudo {
            seq!["mount.nfs"@]
        } else {
            Seq::<Seq<char>>::empty()
        }) + seq!["-o"@, spec_linux_opts(hostport, writable), ip@ + ":/"@, mount_path@]);
    }
    r
}

} // verus!
