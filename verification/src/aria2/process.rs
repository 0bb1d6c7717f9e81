//! Starting the aria2 process: the port it listens on and the arguments it
//! is started with. The caller probes the ports and spawns the process.

use crate::aria2::error::{Error, ErrorView};
use crate::text::{decimal, decimal_string, join2, join3, owned};
use crate::types::strings_view;
use vstd::prelude::*;

verus! {

/// Number of ports that are tried from the preferred one on.
pub const PORT_SCAN_WIDTH: u16 = 100;

/// Milliseconds that aria2 is given to come up.
pub const STARTUP_WAIT_MS: u64 = 500;

/// The port after the last one that is tried from `start` on.
pub open spec fn scan_end(start: u16) -> int {
    if start + PORT_SCAN_WIDTH > u16::MAX {
        u16::MAX as int
    } else {
        start + PORT_SCAN_WIDTH
    }
}

/// Port `start + i` is one of those tried and was found free.
pub open spec fn free_at(start: u16, available: Seq<bool>, i: int) -> bool {
    0 <= i < available.len() && start + i < scan_end(start) && available[i]
}

/// The first free port from `start` on: `available[i]` says whether port
/// `start + i` is free. The ports `start` to `start + 99` are tried, as far
/// as there are such ports.
pub fn find_available_port(start: u16, available: &Vec<bool>) -> (r: Result<u16, Error>)
    ensures
        match r {
            Ok(port) => {
                &&& free_at(start, available@, port - start)
                &&& forall|j: int| 0 <= j < port - start ==> !free_at(start, available@, j)
            },
            Err(e) => {
                &&& forall|j: int| !free_at(start, available@, j)
                &&& e@ == ErrorView::Aria2(
                    "No available ports in range "@ + decimal(start as nat) + "-"@ + decimal(
                        (if start + 99 > u16::MAX {
                            u16::MAX as int
                        } else {
                            start + 99
                        }) as nat,
                    ),
                )
            },
        },
{
    let end: u16 = start.saturating_add(PORT_SCAN_WIDTH);
    let mut port: u16 = start;
    let mut i: usize = 0;
    while port < end && i < available.len()
        invariant
            start <= port <= end,
            end == scan_end(start),
            i == port - start,
            forall|j: int| 0 <= j < i ==> !free_at(start, available@, j),
        decreases end - port,
    {
        if available[i] {
            return Ok(port);
        }
        port = port + 1;
        i = i + 1;
    }
    let last = start.saturating_add(99);
    let a = decimal_string(start as u64);
    let b = decimal_string(last as u64);
    let head = join3("No available ports in range ", a.as_str(), "-");
    Err(Error::Aria2(join2(head.as_str(), b.as_str())))
}

/// The arguments that aria2 is started with: the RPC interface on `port`
/// with `secret`, the download and BitTorrent settings, the session file,
/// the file allocation that the platform supports, and on Unix the process
/// to stop with.
pub open spec fn spec_aria2_args(
    port: u16,
    secret: Seq<char>,
    session_file: Seq<char>,
    macos: bool,
    parent: Option<u32>,
) -> Seq<Seq<char>> {
    seq![
        "--enable-rpc=true"@,
        "--rpc-listen-port="@ + decimal(port as nat),
        "--rpc-secret="@ + secret,
        "--rpc-listen-all=false"@,
        "--max-concurrent-downloads=20"@,
        "--split=16"@,
        "--max-connection-per-server=16"@,
        "--min-split-size=1M"@,
        "--continue=true"@,
        "--enable-dht=true"@,
        "--enable-dht6=true"@,
        "--enable-peer-exchange=true"@,
        "--bt-enable-lpd=true"@,
        "--bt-max-peers=55"@,
        "--bt-request-peer-speed-limit=50K"@,
        "--save-session="@ + session_file,
        "--input-file="@ + session_file,
        "--save-session-interval=60"@,
        "--auto-file-renaming=true"@,
        "--allow-overwrite=false"@,
        "--disk-cache=64M"@,
        if macos {
            "--file-allocation=none"@
        } else {
            "--file-allocation=falloc"@
        },
        "--log-level=warn"@,
    ] + match parent {
        Some(pid) => seq!["--stop-with-process="@ + decimal(pid as nat)],
        None => Seq::empty(),
    }
}

/// The arguments that aria2 is started with.
pub fn aria2_args(port: u16, secret: &str, session_file: &str, macos: bool, parent: Option<u32>)
    -> (r: Vec<String>)
    ensures
        strings_view(r@) == spec_aria2_args(port, secret@, session_file@, macos, parent),
{
    let mut args: Vec<String> = Vec::new();
    args.push(owned("--enable-rpc=true"));
    let p = decimal_string(port as u64);
    args.push(join2("--rpc-listen-port=", p.as_str()));
    args.push(join2("--rpc-secret=", secret));
    args.push(owned("--rpc-listen-all=false"));
    args.push(owned("--max-concurrent-downloads=20"));
    args.push(owned("--split=16"));
    args.push(owned("--max-connection-per-server=16"));
    args.push(owned("--min-split-size=1M"));
    args.push(owned("--continue=true"));
    args.push(owned("--enable-dht=true"));
    args.push(owned("--enable-dht6=true"));
    args.push(owned("--enable-peer-exchange=true"));
    args.push(owned("--bt-enable-lpd=true"));
    args.push(owned("--bt-max-peers=55"));
    args.push(owned("--bt-request-peer-speed-limit=50K"));
    args.push(join2("--save-session=", session_file));
    args.push(join2("--input-file=", session_file));
    args.push(owned("--save-session-interval=60"));
    args.push(owned("--auto-file-renaming=true"));
    args.push(owned("--allow-overwrite=false"));
    args.push(owned("--disk-cache=64M"));
    if macos {
        args.push(owned("--file-allocation=none"));
    } else {
        args.push(owned("--file-allocation=falloc"));
    }
    args.push(owned("--log-level=warn"));
    match parent {
        Some(pid) => {
            let n = decimal_string(pid as u64);
            args.push(join2("--stop-with-process=", n.as_str()));
        },
        None => {},
    }
    assert(strings_view(args@) =~= spec_aria2_args(port, secret@, session_file@, macos, parent));
    args
}

/// The names under which the binary of aria2 is looked for: the plain
/// name, and the name with the platform's suffix.
pub fn binary_names(windows: bool, arch: &str) -> (r: (String, String))
    ensures
        r.0@ == if windows {
            "aria2c.exe"@
        } else {
            "aria2c"@
        },
        r.1@ == if windows {
            "aria2c-"@ + arch@ + ".exe"@
        } else {
            "aria2c-"@ + arch@ + "-apple-darwin"@
        },
{
    if windows {
        (owned("aria2c.exe"), join3("aria2c-", arch, ".exe"))
    } else {
        (owned("aria2c"), join3("aria2c-", arch, "-apple-darwin"))
    }
}

/// Which of the places a binary was looked for in is taken: the
/// development build first, then the resource directory under the plain
/// name, then under the suffixed name; the binary of the system if it is
/// in none.
#[derive(Clone, Copy, Debug, PartialEq, Eq, Structural)]
pub enum BinaryChoice {
    Development,
    Resource,
    ResourceSuffixed,
    System,
}

pub fn choose_binary(dev_exists: bool, resource_exists: bool, suffixed_exists: bool) -> (r:
    BinaryChoice)
    ensures
        r == if dev_exists {
            BinaryChoice::Development
        } else if resource_exists {
            BinaryChoice::Resource
        } else if suffixed_exists {
            BinaryChoice::ResourceSuffixed
        } else {
            BinaryChoice::System
        },
{
    if dev_exists {
        BinaryChoice::Development
    } else if resource_exists {
        BinaryChoice::Resource
    } else if suffixed_exists {
        BinaryChoice::ResourceSuffixed
    } else {
        BinaryChoice::System
    }
}

} // verus!
