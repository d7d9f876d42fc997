//! kmbox command bytes and the transport layer's response-echo rule.

use vstd::prelude::*;

use crate::bytes::copy_prefix;

verus! {

/// Command bytes of the kmbox custom protocol: 0x80 to 0x8F.
pub open spec fn is_kmbox_command(cmd: u8) -> bool {
    0x80 <= cmd <= 0x8F
}

/// The four kmbox session commands whose meaning is known: 0x80 to 0x83.
pub open spec fn is_known_kmbox_command(cmd: u8) -> bool {
    0x80 <= cmd <= 0x83
}

/// Name of a known kmbox session command.
pub open spec fn spec_known_kmbox_command_name(cmd: u8) -> Seq<char> {
    if cmd == 0x80 {
        "write"@
    } else if cmd == 0x81 {
        "init"@
    } else if cmd == 0x82 {
        "verify"@
    } else {
        "end"@
    }
}

/// The name of a known kmbox session command (write, init, verify, end for
/// 0x80 to 0x83), or `None` for any other byte.
pub fn known_kmbox_command_name(cmd: u8) -> (name: Option<&'static str>)
    ensures
        name is Some <==> is_known_kmbox_command(cmd),
        name matches Some(s) ==> s@ == spec_known_kmbox_command_name(cmd),
{
    match cmd {
        0x80 => Some("write"),
        0x81 => Some("init"),
        0x82 => Some("verify"),
        0x83 => Some("end"),
        _ => None,
    }
}

/// Every known kmbox session command is a kmbox command, so the transport
/// accepts its reply without an echoed command byte.
pub proof fn lemma_known_commands_skip_echo(cmd: u8, response: Seq<u8>)
    requires
        is_known_kmbox_command(cmd),
    ensures
        is_kmbox_command(cmd),
        echo_accepted(seq![cmd], response),
{
}

/// Whether `cmd` belongs to the kmbox custom protocol (0x80 to 0x8F).
pub fn is_kmbox_command_byte(cmd: u8) -> (r: bool)
    ensures
        r == is_kmbox_command(cmd),
{
    0x80 <= cmd && cmd <= 0x8F
}

/// A reply whose command byte differs from the request's.
#[derive(Debug, Clone, Copy, PartialEq, Eq)]
pub enum TransferError {
    /// The reply does not echo the request's command byte.
    CommandMismatch { request: u8, response: u8 },
}

/// Whether a reply is accepted for a request: kmbox commands do not echo
/// their command byte, every other reply must start with the request's.
pub open spec fn echo_accepted(request: Seq<u8>, response: Seq<u8>) -> bool {
    is_kmbox_command(request[0]) || request[0] == response[0]
}

/// The echo rule in terms of bytes: a request whose command byte lies in
/// 0x80 to 0x8F accepts every reply; any other request accepts a reply
/// exactly when the reply's first byte is the request's first byte, however
/// long the reply is.
pub proof fn lemma_echo_rule(request: Seq<u8>, response: Seq<u8>)
    requires
        request.len() > 0,
    ensures
        0x80 <= request[0] <= 0x8F ==> echo_accepted(request, response),
        !(0x80 <= request[0] <= 0x8F) && response.len() > 0 ==> (echo_accepted(request, response)
            <==> response[0] == request[0]),
{
}

/// Checks the command byte of a raw reply against the raw request it answers.
/// A kmbox command (0x80 to 0x8F) is accepted whatever came back; any other
/// reply must start with the request's command byte.
pub fn check_response_echo(request: &[u8], response: &[u8]) -> (r: Result<(), TransferError>)
    requires
        request@.len() > 0,
        !is_kmbox_command(request@[0]) ==> response@.len() > 0,
    ensures
        r is Ok <==> echo_accepted(request@, response@),
        r matches Err(TransferError::CommandMismatch { request: q, response: p }) ==> q
            == request@[0] && p == response@[0],
{
    let cmd = request[0];
    if is_kmbox_command_byte(cmd) {
        Ok(())
    } else if cmd == response[0] {
        Ok(())
    } else {
        Err(TransferError::CommandMismatch { request: cmd, response: response[0] })
    }
}

/// The status of a kmbox probe reply: its first two bytes when the reply has
/// at least two and the first is 0x00, `None` for any other reply.
pub fn kmbox_probe_status(payload: &[u8]) -> (status: Option<(u8, u8)>)
    ensures
        status == (if payload@.len() >= 2 && payload@[0] == 0 {
            Some((payload@[0], payload@[1]))
        } else {
            None::<(u8, u8)>
        }),
{
    if payload.len() >= 2 && payload[0] == 0x00 {
        Some((payload[0], payload[1]))
    } else {
        None
    }
}

/// Command bytes tried, in this order, when looking for a kmbox read command.
pub open spec fn spec_kmbox_read_candidates() -> Seq<u8> {
    seq![0x85u8, 0x86u8, 0x87u8, 0x8Au8]
}

/// The command bytes tried when looking for a kmbox read command.
pub fn kmbox_read_candidates() -> (cmds: Vec<u8>)
    ensures
        cmds@ == spec_kmbox_read_candidates(),
{
    let cmds: Vec<u8> = vec![0x85, 0x86, 0x87, 0x8A];
    assert(cmds@ =~= spec_kmbox_read_candidates());
    cmds
}

/// Payload sent with each candidate read command: a length byte of 0x3C and
/// a zero address.
pub fn kmbox_read_payload() -> (payload: Vec<u8>)
    ensures
        payload@ == seq![0x3Cu8, 0x00u8, 0x00u8],
{
    let payload: Vec<u8> = vec![0x3C, 0x00, 0x00];
    assert(payload@ =~= seq![0x3Cu8, 0x00u8, 0x00u8]);
    payload
}

/// What a reply to a candidate read command shows.
#[derive(Debug, PartialEq, Eq)]
pub struct ReadProbeReport {
    /// Length of the reply.
    pub len: usize,
    /// The reply's first bytes, at most sixteen.
    pub preview: Vec<u8>,
    /// Whether the reply carries more than a two-byte status.
    pub has_data: bool,
}

/// Summarises a reply to a candidate read command.
pub fn read_probe_report(payload: &[u8]) -> (r: ReadProbeReport)
    ensures
        r.len == payload@.len(),
        r.preview@ == payload@.take(if payload@.len() < 16 { payload@.len() as int } else { 16 }),
        r.has_data == (payload@.len() > 2),
{
    let len = payload.len();
    let n: usize = if len < 16 { len } else { 16 };
    let preview = copy_prefix(payload, n);
    ReadProbeReport { len, preview, has_data: len > 2 }
}

} // verus!
