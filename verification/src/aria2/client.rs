//! The framing of aria2's JSON-RPC over HTTP. The caller serialises the
//! requests and owns the connection.

use crate::aria2::error::{Error, ErrorView};
use crate::text::{
    chars_of, decimal, decimal_string, find, join2, join3, occurs_at, owned, slice, spec_find,
    string_of,
};
use vstd::prelude::*;
use vstd::string::StringSliceAdditionalSpecFns;

verus! {

/// The most that is read of an answer, in bytes.
pub const RESPONSE_BUFFER_SIZE: usize = 65536;

/// The methods of aria2 that the client calls.
#[derive(Clone, Copy, Debug, PartialEq, Eq, Structural)]
pub enum Aria2Method {
    AddUri,
    AddTorrent,
    AddMetalink,
    Pause,
    PauseAll,
    Unpause,
    UnpauseAll,
    Remove,
    ForceRemove,
    TellStatus,
    TellActive,
    TellWaiting,
    TellStopped,
    GetGlobalStat,
    GetFiles,
    ChangeOption,
    ChangeGlobalOption,
    GetVersion,
    SaveSession,
    Shutdown,
    GetPeers,
}

impl Aria2Method {
    /// The name of the method on the wire.
    pub open spec fn wire_name(self) -> Seq<char> {
        match self {
            Aria2Method::AddUri => "aria2.addUri"@,
            Aria2Method::AddTorrent => "aria2.addTorrent"@,
            Aria2Method::AddMetalink => "aria2.addMetalink"@,
            Aria2Method::Pause => "aria2.pause"@,
            Aria2Method::PauseAll => "aria2.pauseAll"@,
            Aria2Method::Unpause => "aria2.unpause"@,
            Aria2Method::UnpauseAll => "aria2.unpauseAll"@,
            Aria2Method::Remove => "aria2.remove"@,
            Aria2Method::ForceRemove => "aria2.forceRemove"@,
            Aria2Method::TellStatus => "aria2.tellStatus"@,
            Aria2Method::TellActive => "aria2.tellActive"@,
            Aria2Method::TellWaiting => "aria2.tellWaiting"@,
            Aria2Method::TellStopped => "aria2.tellStopped"@,
            Aria2Method::GetGlobalStat => "aria2.getGlobalStat"@,
            Aria2Method::GetFiles => "aria2.getFiles"@,
            Aria2Method::ChangeOption => "aria2.changeOption"@,
            Aria2Method::ChangeGlobalOption => "aria2.changeGlobalOption"@,
            Aria2Method::GetVersion => "aria2.getVersion"@,
            Aria2Method::SaveSession => "aria2.saveSession"@,
            Aria2Method::Shutdown => "aria2.shutdown"@,
            Aria2Method::GetPeers => "aria2.getPeers"@,
        }
    }

    /// The name of the method on the wire.
    pub fn to_wire_name(self) -> (r: &'static str)
        ensures
            r@ == self.wire_name(),
    {
        match self {
            Aria2Method::AddUri => "aria2.addUri",
            Aria2Method::AddTorrent => "aria2.addTorrent",
            Aria2Method::AddMetalink => "aria2.addMetalink",
            Aria2Method::Pause => "aria2.pause",
            Aria2Method::PauseAll => "aria2.pauseAll",
            Aria2Method::Unpause => "aria2.unpause",
            Aria2Method::UnpauseAll => "aria2.unpauseAll",
            Aria2Method::Remove => "aria2.remove",
            Aria2Method::ForceRemove => "aria2.forceRemove",
            Aria2Method::TellStatus => "aria2.tellStatus",
            Aria2Method::TellActive => "aria2.tellActive",
            Aria2Method::TellWaiting => "aria2.tellWaiting",
            Aria2Method::TellStopped => "aria2.tellStopped",
            Aria2Method::GetGlobalStat => "aria2.getGlobalStat",
            Aria2Method::GetFiles => "aria2.getFiles",
            Aria2Method::ChangeOption => "aria2.changeOption",
            Aria2Method::ChangeGlobalOption => "aria2.changeGlobalOption",
            Aria2Method::GetVersion => "aria2.getVersion",
            Aria2Method::SaveSession => "aria2.saveSession",
            Aria2Method::Shutdown => "aria2.shutdown",
            Aria2Method::GetPeers => "aria2.getPeers",
        }
    }
}

/// The first parameter of every call: the secret, marked as a token.
pub fn secret_token(secret: &str) -> (r: String)
    ensures
        r@ == "token:"@ + secret@,
{
    join2("token:", secret)
}

/// The address of the RPC interface on this machine.
pub fn rpc_address(port: u16) -> (r: String)
    ensures
        r@ == "127.0.0.1:"@ + decimal(port as nat),
{
    let p = decimal_string(port as u64);
    join2("127.0.0.1:", p.as_str())
}

/// The books of the client: the next request gets the next number.
#[derive(Clone, Copy, Debug, PartialEq, Eq, Structural)]
pub struct RequestCounter {
    pub next: u64,
}

impl RequestCounter {
    pub fn new() -> (c: RequestCounter)
        ensures
            c.next == 1,
    {
        RequestCounter { next: 1 }
    }

    /// The id of the next request, as text; the numbers wrap around.
    pub fn next_id(&mut self) -> (r: String)
        ensures
            r@ == decimal(old(self).next as nat),
            final(self).next == if old(self).next == u64::MAX {
                0
            } else {
                (old(self).next + 1) as u64
            },
    {
        let id = self.next;
        self.next = if id == u64::MAX {
            0
        } else {
            id + 1
        };
        decimal_string(id)
    }
}

/// The head of the HTTP request that carries a JSON body of `len` bytes.
pub open spec fn request_head(len: nat) -> Seq<char> {
    "POST /jsonrpc HTTP/1.1\r\nHost: localhost\r\nContent-Type: application/json\r\nContent-Length: "@
        + decimal(len) + "\r\nConnection: keep-alive\r\n\r\n"@
}

/// The HTTP request that carries the JSON body.
pub fn frame_request(body: &str) -> (r: String)
    ensures
        r@ == request_head(body.spec_bytes().len() as usize as nat) + body@,
{
    let len = decimal_string(body.len() as u64);
    let head = join3(
        "POST /jsonrpc HTTP/1.1\r\nHost: localhost\r\nContent-Type: application/json\r\nContent-Length: ",
        len.as_str(),
        "\r\nConnection: keep-alive\r\n\r\n",
    );
    join2(head.as_str(), body)
}

/// The body of an HTTP answer: what stands between the first blank line
/// and the next one, or the end.
pub open spec fn spec_response_body(response: Seq<char>) -> Option<Seq<char>> {
    let sep = "\r\n\r\n"@;
    match spec_find(response, sep) {
        Some(i) => {
            let rest = response.skip(i + sep.len());
            match spec_find(rest, sep) {
                Some(j) => Some(rest.take(j)),
                None => Some(rest),
            }
        },
        None => None,
    }
}

/// The body of an HTTP answer.
pub fn response_body(response: &str) -> (r: Result<String, Error>)
    ensures
        match r {
            Ok(body) => spec_response_body(response@) == Some(body@),
            Err(e) => spec_response_body(response@) is None && e@ == ErrorView::Aria2(
                "Invalid HTTP response"@,
            ),
        },
{
    let text = chars_of(response);
    let sep = chars_of("\r\n\r\n");
    match find(&text, &sep) {
        Some(i) => {
            proof {
                reveal_strlit("\r\n\r\n");
            }
            assert(occurs_at(text@, sep@, i as int));
            assert(sep@.len() == 4);
            assert(i + 4 <= text.len());
            let rest = slice(&text, i + sep.len(), text.len());
            assert(rest@ == text@.skip(i + sep.len()));
            match find(&rest, &sep) {
                Some(j) => {
                    assert(rest@.take(j as int) == rest@.subrange(0, j as int));
                    let body = slice(&rest, 0, j);
                    Ok(string_of(&body))
                },
                None => Ok(string_of(&rest)),
            }
        },
        None => Err(Error::Aria2(owned("Invalid HTTP response"))),
    }
}

/// The error for a JSON-RPC answer that carries an error.
pub fn rpc_error(code: i64, message: &str) -> (e: Error)
    ensures
        e@ == ErrorView::Aria2(
            "RPC error "@ + signed_decimal(code as int) + ": "@ + message@,
        ),
{
    let number = signed_decimal_string(code);
    let head = join3("RPC error ", number.as_str(), ": ");
    Error::Aria2(join2(head.as_str(), message))
}

/// The decimal text of a number with its sign.
pub open spec fn signed_decimal(n: int) -> Seq<char> {
    if n < 0 {
        seq!['-'] + decimal((-n) as nat)
    } else {
        decimal(n as nat)
    }
}

pub fn signed_decimal_string(n: i64) -> (r: String)
    ensures
        r@ == signed_decimal(n as int),
{
    if n < 0 {
        let magnitude: u64 = if n == i64::MIN {
            0x8000_0000_0000_0000
        } else {
            (-n) as u64
        };
        let digits = decimal_string(magnitude);
        proof {
            reveal_strlit("-");
            assert("-"@ =~= seq!['-']);
        }
        join2("-", digits.as_str())
    } else {
        decimal_string(n as u64)
    }
}

} // verus!
