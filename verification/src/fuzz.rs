//! Fuzzing of ISP command bytes: which commands are sent with which
//! payloads, and how each reply is judged and recorded.

use vstd::prelude::*;

use crate::bytes::copy_prefix;
use crate::kmbox::{echo_accepted, is_kmbox_command, is_known_kmbox_command, known_kmbox_command_name};

verus! {

/// The two request payloads tried with every fuzzed command byte.
#[derive(Debug, Clone, Copy, PartialEq, Eq, Structural)]
pub enum FuzzFormat {
    /// `02 00 00`, shaped like the kmbox init and end commands.
    Short,
    /// `3C 00 00`, shaped like the kmbox write and verify commands.
    Medium,
}

/// Payload bytes of a fuzz format.
pub open spec fn spec_format_payload(format: FuzzFormat) -> Seq<u8> {
    match format {
        FuzzFormat::Short => seq![0x02u8, 0x00u8, 0x00u8],
        FuzzFormat::Medium => seq![0x3Cu8, 0x00u8, 0x00u8],
    }
}

/// One-based number of a fuzz format, as reported to the user.
pub open spec fn spec_format_number(format: FuzzFormat) -> usize {
    match format {
        FuzzFormat::Short => 1,
        FuzzFormat::Medium => 2,
    }
}

impl FuzzFormat {
    /// The payload sent with this format.
    pub fn payload(&self) -> (p: Vec<u8>)
        ensures
            p@ == spec_format_payload(*self),
    {
        let p: Vec<u8> = match self {
            FuzzFormat::Short => vec![0x02, 0x00, 0x00],
            FuzzFormat::Medium => vec![0x3C, 0x00, 0x00],
        };
        assert(p@ =~= spec_format_payload(*self));
        p
    }

    /// The format's one-based number (1 for `Short`, 2 for `Medium`).
    pub fn number(&self) -> (n: usize)
        ensures
            n == spec_format_number(*self),
    {
        match self {
            FuzzFormat::Short => 1,
            FuzzFormat::Medium => 2,
        }
    }
}

/// One step of a fuzzing run.
#[derive(Debug, Clone, Copy, PartialEq, Eq, Structural)]
pub enum FuzzStep {
    /// A known kmbox session command that is left out.
    Skip { command: u8 },
    /// Send `command` with the payload of `format`.
    Probe { command: u8, format: FuzzFormat },
}

/// The steps for one command byte: a known kmbox session command is skipped
/// unless known commands are included; any other byte is probed with the
/// short and then the medium payload.
pub open spec fn command_steps(command: u8, include_known: bool) -> Seq<FuzzStep> {
    if !include_known && is_known_kmbox_command(command) {
        seq![FuzzStep::Skip { command }]
    } else {
        seq![
            FuzzStep::Probe { command, format: FuzzFormat::Short },
            FuzzStep::Probe { command, format: FuzzFormat::Medium },
        ]
    }
}

/// The steps for the command bytes `from` to `end` in ascending order.
pub open spec fn plan_from(from: int, end: int, include_known: bool) -> Seq<FuzzStep>
    decreases end - from + 1,
{
    if from > end {
        Seq::empty()
    } else {
        command_steps(from as u8, include_known) + plan_from(from + 1, end, include_known)
    }
}

/// The whole fuzzing run over the command bytes `start` to `end` (none when
/// `start > end`).
pub open spec fn spec_fuzz_plan(start: u8, end: u8, include_known: bool) -> Seq<FuzzStep> {
    plan_from(start as int, end as int, include_known)
}

/// The steps of a fuzzing run over the command bytes `start` to `end`,
/// both included, in ascending order: the known kmbox session commands
/// 0x80 to 0x83 are skipped unless `include_known`, every other byte is
/// probed with the short and then the medium payload.
pub fn fuzz_plan(start: u8, end: u8, include_known: bool) -> (plan: Vec<FuzzStep>)
    ensures
        plan@ == spec_fuzz_plan(start, end, include_known),
{
    let mut plan: Vec<FuzzStep> = Vec::new();
    let mut c: u16 = start as u16;
    assert(plan@ + plan_from(c as int, end as int, include_known) =~= spec_fuzz_plan(
        start,
        end,
        include_known,
    ));
    while c <= end as u16
        invariant
            start <= c,
            c <= end as int + 1 || c == start,
            plan@ + plan_from(c as int, end as int, include_known) == spec_fuzz_plan(
                start,
                end,
                include_known,
            ),
        decreases end as int + 1 - c,
    {
        let command = c as u8;
        let ghost before = plan@;
        if !include_known && known_kmbox_command_name(command).is_some() {
            plan.push(FuzzStep::Skip { command });
        } else {
            plan.push(FuzzStep::Probe { command, format: FuzzFormat::Short });
            plan.push(FuzzStep::Probe { command, format: FuzzFormat::Medium });
        }
        assert(plan@ =~= before + command_steps(command, include_known));
        assert(before + command_steps(command, include_known) + plan_from(
            c as int + 1,
            end as int,
            include_known,
        ) =~= before + (command_steps(command, include_known) + plan_from(
            c as int + 1,
            end as int,
            include_known,
        )));
        c = c + 1;
    }
    assert(plan_from(c as int, end as int, include_known) =~= Seq::empty());
    assert(plan@ + Seq::<FuzzStep>::empty() =~= plan@);
    plan
}

/// The command byte a step is about.
pub open spec fn step_command(step: FuzzStep) -> u8 {
    match step {
        FuzzStep::Skip { command } => command,
        FuzzStep::Probe { command, .. } => command,
    }
}

/// What holds of every step of `plan_from(from, end, include_known)`.
pub open spec fn step_well_placed(step: FuzzStep, from: int, end: int, include_known: bool) -> bool {
    &&& from <= step_command(step) <= end
    &&& match step {
        FuzzStep::Skip { command } => !include_known && is_known_kmbox_command(command),
        FuzzStep::Probe { command, .. } => include_known || !is_known_kmbox_command(command),
    }
}

proof fn lemma_plan_from_steps(from: int, end: int, include_known: bool)
    requires
        0 <= from,
        end <= 255,
    ensures
        forall|k: int|
            0 <= k < plan_from(from, end, include_known).len() ==> step_well_placed(
                #[trigger] plan_from(from, end, include_known)[k],
                from,
                end,
                include_known,
            ),
    decreases end - from + 1,
{
    if from <= end {
        lemma_plan_from_steps(from + 1, end, include_known);
        let head = command_steps(from as u8, include_known);
        let rest = plan_from(from + 1, end, include_known);
        assert forall|k: int|
            0 <= k < plan_from(from, end, include_known).len() implies step_well_placed(
            #[trigger] plan_from(from, end, include_known)[k],
            from,
            end,
            include_known,
        ) by {
            if k >= head.len() {
                assert(plan_from(from, end, include_known)[k] == rest[k - head.len()]);
            }
        }
    }
}

proof fn lemma_plan_from_contains(from: int, end: int, include_known: bool, c: int, j: int)
    requires
        0 <= from <= c <= end <= 255,
        0 <= j < command_steps(c as u8, include_known).len(),
    ensures
        plan_from(from, end, include_known).contains(command_steps(c as u8, include_known)[j]),
    decreases c - from,
{
    let head = command_steps(from as u8, include_known);
    let rest = plan_from(from + 1, end, include_known);
    if c == from {
        assert(plan_from(from, end, include_known)[j] == head[j]);
    } else {
        lemma_plan_from_contains(from + 1, end, include_known, c, j);
        let k = choose|k: int| 0 <= k < rest.len() && rest[k] == command_steps(c as u8, include_known)[j];
        assert(plan_from(from, end, include_known)[head.len() + k] == rest[k]);
    }
}

proof fn lemma_plan_from_ascending(from: int, end: int, include_known: bool)
    requires
        0 <= from,
        end <= 255,
    ensures
        forall|i: int, j: int|
            0 <= i < j < plan_from(from, end, include_known).len() ==> step_command(
                #[trigger] plan_from(from, end, include_known)[i],
            ) <= step_command(#[trigger] plan_from(from, end, include_known)[j]),
    decreases end - from + 1,
{
    if from <= end {
        lemma_plan_from_ascending(from + 1, end, include_known);
        lemma_plan_from_steps(from + 1, end, include_known);
        let head = command_steps(from as u8, include_known);
        let rest = plan_from(from + 1, end, include_known);
        let plan = plan_from(from, end, include_known);
        assert forall|i: int, j: int| 0 <= i < j < plan.len() implies step_command(
            #[trigger] plan[i],
        ) <= step_command(#[trigger] plan[j]) by {
            if i >= head.len() {
                assert(plan[i] == rest[i - head.len()]);
                assert(plan[j] == rest[j - head.len()]);
            } else if j >= head.len() {
                assert(plan[j] == rest[j - head.len()]);
                assert(step_well_placed(rest[j - head.len()], from + 1, end, include_known));
            }
        }
    }
}

proof fn lemma_plan_from_pairs(from: int, end: int, include_known: bool)
    requires
        0 <= from,
        end <= 255,
    ensures
        forall|i: int, j: int|
            0 <= i < j < plan_from(from, end, include_known).len() && step_command(
                #[trigger] plan_from(from, end, include_known)[i],
            ) == step_command(#[trigger] plan_from(from, end, include_known)[j]) ==> {
                &&& plan_from(from, end, include_known)[i] == FuzzStep::Probe {
                    command: step_command(plan_from(from, end, include_known)[i]),
                    format: FuzzFormat::Short,
                }
                &&& plan_from(from, end, include_known)[j] == FuzzStep::Probe {
                    command: step_command(plan_from(from, end, include_known)[i]),
                    format: FuzzFormat::Medium,
                }
                &&& j == i + 1
            },
    decreases end - from + 1,
{
    if from <= end {
        lemma_plan_from_pairs(from + 1, end, include_known);
        lemma_plan_from_steps(from + 1, end, include_known);
        let head = command_steps(from as u8, include_known);
        let rest = plan_from(from + 1, end, include_known);
        let plan = plan_from(from, end, include_known);
        assert forall|i: int, j: int|
            0 <= i < j < plan.len() && step_command(#[trigger] plan[i]) == step_command(
                #[trigger] plan[j],
            ) implies {
            &&& plan[i] == FuzzStep::Probe { command: step_command(plan[i]), format: FuzzFormat::Short }
            &&& plan[j] == FuzzStep::Probe { command: step_command(plan[i]), format: FuzzFormat::Medium }
            &&& j == i + 1
        } by {
            if i >= head.len() {
                assert(plan[i] == rest[i - head.len()]);
                assert(plan[j] == rest[j - head.len()]);
            } else if j >= head.len() {
                assert(plan[j] == rest[j - head.len()]);
                assert(step_well_placed(rest[j - head.len()], from + 1, end, include_known));
            }
        }
    }
}

/// Within a fuzzing run a command byte occurs at most twice: when it occurs
/// twice, the two steps are adjacent probes, the short payload first and the
/// medium payload second. So no step is repeated, a skipped byte occurs
/// once, and no byte is sent more than once per payload.
pub proof fn lemma_fuzz_plan_no_repeats(start: u8, end: u8, include_known: bool)
    ensures
        forall|i: int, j: int|
            0 <= i < j < spec_fuzz_plan(start, end, include_known).len() && step_command(
                #[trigger] spec_fuzz_plan(start, end, include_known)[i],
            ) == step_command(#[trigger] spec_fuzz_plan(start, end, include_known)[j]) ==> {
                &&& spec_fuzz_plan(start, end, include_known)[i] == FuzzStep::Probe {
                    command: step_command(spec_fuzz_plan(start, end, include_known)[i]),
                    format: FuzzFormat::Short,
                }
                &&& spec_fuzz_plan(start, end, include_known)[j] == FuzzStep::Probe {
                    command: step_command(spec_fuzz_plan(start, end, include_known)[i]),
                    format: FuzzFormat::Medium,
                }
                &&& j == i + 1
            },
        forall|i: int, j: int|
            0 <= i < j < spec_fuzz_plan(start, end, include_known).len() ==> #[trigger] spec_fuzz_plan(
                start,
                end,
                include_known,
            )[i] != #[trigger] spec_fuzz_plan(start, end, include_known)[j],
{
    lemma_plan_from_pairs(start as int, end as int, include_known);
}

/// Number of known kmbox session commands (0x80 to 0x83) among the bytes
/// `from` to `end`.
pub open spec fn known_in_range(from: int, end: int) -> int {
    let lo = if from < 0x80 { 0x80 } else { from };
    let hi = if end > 0x83 { 0x83 } else { end };
    if lo <= hi {
        hi - lo + 1
    } else {
        0
    }
}

proof fn lemma_plan_from_len(from: int, end: int, include_known: bool)
    requires
        0 <= from,
        end <= 255,
    ensures
        plan_from(from, end, include_known).len() == (if from <= end {
            2 * (end - from + 1) - (if include_known {
                0
            } else {
                known_in_range(from, end)
            })
        } else {
            0
        }),
    decreases end - from + 1,
{
    if from <= end {
        lemma_plan_from_len(from + 1, end, include_known);
    }
}

/// A fuzzing run over `start` to `end` has two steps for every byte in the
/// range, less one for each known kmbox session command that is skipped.
pub proof fn lemma_fuzz_plan_len(start: u8, end: u8, include_known: bool)
    ensures
        spec_fuzz_plan(start, end, include_known).len() == (if start <= end {
            2 * (end - start + 1) - (if include_known {
                0
            } else {
                known_in_range(start as int, end as int)
            })
        } else {
            0
        }),
{
    lemma_plan_from_len(start as int, end as int, include_known);
}

/// A fuzzing run visits the command bytes in ascending order.
pub proof fn lemma_fuzz_plan_ascending(start: u8, end: u8, include_known: bool)
    ensures
        forall|i: int, j: int|
            0 <= i < j < spec_fuzz_plan(start, end, include_known).len() ==> step_command(
                #[trigger] spec_fuzz_plan(start, end, include_known)[i],
            ) <= step_command(#[trigger] spec_fuzz_plan(start, end, include_known)[j]),
{
    lemma_plan_from_ascending(start as int, end as int, include_known);
}

/// Every step of a fuzzing run is about a command byte between `start` and
/// `end`; a known kmbox session command (0x80 to 0x83) is never probed
/// unless known commands are included, and only such a command is skipped.
pub proof fn lemma_fuzz_plan_sound(start: u8, end: u8, include_known: bool)
    ensures
        forall|k: int|
            #![trigger spec_fuzz_plan(start, end, include_known)[k]]
            0 <= k < spec_fuzz_plan(start, end, include_known).len() ==> {
                let step = spec_fuzz_plan(start, end, include_known)[k];
                &&& start <= step_command(step) <= end
                &&& (step is Probe ==> include_known || !is_known_kmbox_command(step_command(step)))
                &&& (step is Skip ==> !include_known && is_known_kmbox_command(step_command(step)))
            },
{
    lemma_plan_from_steps(start as int, end as int, include_known);
}

/// Every command byte between `start` and `end` is probed with both
/// payloads, except a known kmbox session command when known commands are
/// left out, which is recorded as skipped instead.
pub proof fn lemma_fuzz_plan_complete(start: u8, end: u8, include_known: bool, command: u8)
    requires
        start <= command <= end,
    ensures
        include_known || !is_known_kmbox_command(command) ==> {
            &&& spec_fuzz_plan(start, end, include_known).contains(
                FuzzStep::Probe { command, format: FuzzFormat::Short },
            )
            &&& spec_fuzz_plan(start, end, include_known).contains(
                FuzzStep::Probe { command, format: FuzzFormat::Medium },
            )
        },
        !include_known && is_known_kmbox_command(command) ==> spec_fuzz_plan(
            start,
            end,
            include_known,
        ).contains(FuzzStep::Skip { command }),
{
    if include_known || !is_known_kmbox_command(command) {
        lemma_plan_from_contains(start as int, end as int, include_known, command as int, 0);
        lemma_plan_from_contains(start as int, end as int, include_known, command as int, 1);
    } else {
        lemma_plan_from_contains(start as int, end as int, include_known, command as int, 0);
    }
}

/// A reply is interesting when it is anything but the standard two-byte
/// status `00 00`.
pub open spec fn is_interesting_reply(payload: Seq<u8>) -> bool {
    payload.len() != 2 || payload[0] != 0 || payload[1] != 0
}

/// A reply is interesting exactly when it is not the two bytes `00 00`:
/// any other length, or two bytes of which either is non-zero.
pub proof fn lemma_interesting_iff_not_standard_status(payload: Seq<u8>)
    ensures
        is_interesting_reply(payload) <==> payload != seq![0x00u8, 0x00u8],
        payload.len() == 2 ==> (is_interesting_reply(payload) <==> (payload[0] != 0x00
            || payload[1] != 0x00)),
{
    if payload.len() == 2 && payload[0] == 0 && payload[1] == 0 {
        assert(payload =~= seq![0x00u8, 0x00u8]);
    }
    if payload == seq![0x00u8, 0x00u8] {
        assert(payload.len() == 2 && payload[0] == 0 && payload[1] == 0);
    }
}

/// The smaller of `a` and `b`.
pub open spec fn min_len(a: nat, b: nat) -> nat {
    if a < b {
        a
    } else {
        b
    }
}

/// How one fuzz reply is reported.
#[derive(Debug, PartialEq, Eq)]
pub struct FuzzReport {
    /// Length of the reply.
    pub len: usize,
    /// The status bytes shown: the reply's first two bytes, or fewer when it
    /// is shorter (none for an empty reply).
    pub status: Vec<u8>,
    /// For a reply longer than two bytes, its first bytes (at most sixteen)
    /// for the detailed listing.
    pub preview: Option<Vec<u8>>,
    /// Whether the reply differs from the standard `00 00`.
    pub interesting: bool,
}

/// A fuzzed command whose reply was interesting.
#[derive(Debug, Clone, Copy, PartialEq, Eq, Structural)]
pub struct FuzzFinding {
    /// The command byte sent.
    pub command: u8,
    /// One-based number of the payload format sent.
    pub format: usize,
    /// Length of the reply.
    pub len: usize,
}

/// Judges one fuzz reply and records it among `findings` when it is
/// interesting: the report shows the reply's length, its first two bytes
/// (fewer for a shorter reply), for a reply longer than two bytes its first
/// sixteen bytes at most, and whether it differs from `00 00`; an
/// interesting reply is appended to `findings` with its command, format
/// number and length, any other leaves `findings` as it was.
pub fn record_fuzz_reply(
    findings: &mut Vec<FuzzFinding>,
    command: u8,
    format: FuzzFormat,
    payload: &[u8],
) -> (report: FuzzReport)
    ensures
        report.len == payload@.len(),
        report.status@ == payload@.take(min_len(payload@.len(), 2) as int),
        report.preview matches Some(p) ==> p@ == payload@.take(
            min_len(payload@.len(), 16) as int,
        ),
        report.preview is Some <==> payload@.len() > 2,
        report.interesting == is_interesting_reply(payload@),
        final(findings)@ == (if is_interesting_reply(payload@) {
            old(findings)@.push(
                FuzzFinding {
                    command,
                    format: spec_format_number(format),
                    len: payload@.len() as usize,
                },
            )
        } else {
            old(findings)@
        }),
{
    let len = payload.len();
    let status = copy_prefix(payload, if len < 2 { len } else { 2 });
    let preview = if len > 2 {
        Some(copy_prefix(payload, if len < 16 { len } else { 16 }))
    } else {
        None
    };
    let interesting = len != 2 || payload[0] != 0x00 || payload[1] != 0x00;
    if interesting {
        findings.push(FuzzFinding { command, format: format.number(), len });
    }
    FuzzReport { len, status, preview, interesting }
}

/// Within the kmbox range 0x80 to 0x8F every probed command is a kmbox
/// command, so the transport accepts whatever reply it gets without an
/// echoed command byte.
pub proof fn lemma_kmbox_fuzz_needs_no_echo(
    start: u8,
    end: u8,
    include_known: bool,
    k: int,
    response: Seq<u8>,
)
    requires
        0x80 <= start,
        end <= 0x8F,
        0 <= k < spec_fuzz_plan(start, end, include_known).len(),
    ensures
        is_kmbox_command(step_command(spec_fuzz_plan(start, end, include_known)[k])),
        echo_accepted(seq![step_command(spec_fuzz_plan(start, end, include_known)[k])], response),
{
    lemma_fuzz_plan_sound(start, end, include_known);
}

} // verus!
