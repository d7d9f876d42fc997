use kmbox_isp::fuzz::{fuzz_plan, record_fuzz_reply, FuzzFinding, FuzzFormat, FuzzStep};
use kmbox_isp::kmbox::{check_response_echo, is_kmbox_command_byte};

fn probes(command: u8) -> [FuzzStep; 2] {
    [
        FuzzStep::Probe { command, format: FuzzFormat::Short },
        FuzzStep::Probe { command, format: FuzzFormat::Medium },
    ]
}

#[test]
fn default_range_skips_known_session_commands() {
    let plan = fuzz_plan(0x80, 0x8F, false);
    let mut expected = vec![
        FuzzStep::Skip { command: 0x80 },
        FuzzStep::Skip { command: 0x81 },
        FuzzStep::Skip { command: 0x82 },
        FuzzStep::Skip { command: 0x83 },
    ];
    for c in 0x84u8..=0x8F {
        expected.extend(probes(c));
    }
    assert_eq!(plan, expected);
}

#[test]
fn include_known_probes_everything() {
    let plan = fuzz_plan(0x80, 0x8F, true);
    let mut expected = Vec::new();
    for c in 0x80u8..=0x8F {
        expected.extend(probes(c));
    }
    assert_eq!(plan, expected);
}

#[test]
fn empty_and_single_ranges() {
    assert!(fuzz_plan(0x90, 0x80, false).is_empty());
    assert_eq!(fuzz_plan(0x10, 0x10, false), probes(0x10).to_vec());
    assert_eq!(fuzz_plan(0x81, 0x81, false), vec![FuzzStep::Skip { command: 0x81 }]);
}

#[test]
fn full_range_reaches_0xff() {
    let plan = fuzz_plan(0x00, 0xFF, false);
    assert_eq!(plan.len(), 4 + 252 * 2);
    assert_eq!(plan[plan.len() - 1], FuzzStep::Probe { command: 0xFF, format: FuzzFormat::Medium });
    for w in plan.windows(2) {
        let cmd = |s: &FuzzStep| match s {
            FuzzStep::Skip { command } => *command,
            FuzzStep::Probe { command, .. } => *command,
        };
        assert!(cmd(&w[0]) <= cmd(&w[1]));
    }
}

#[test]
fn format_payloads_and_numbers() {
    assert_eq!(FuzzFormat::Short.payload(), vec![0x02, 0x00, 0x00]);
    assert_eq!(FuzzFormat::Medium.payload(), vec![0x3C, 0x00, 0x00]);
    assert_eq!(FuzzFormat::Short.number(), 1);
    assert_eq!(FuzzFormat::Medium.number(), 2);
}

#[test]
fn standard_status_is_not_interesting() {
    let mut findings = Vec::new();
    let r = record_fuzz_reply(&mut findings, 0x84, FuzzFormat::Short, &[0x00, 0x00]);
    assert_eq!(r.len, 2);
    assert_eq!(r.status, vec![0x00, 0x00]);
    assert_eq!(r.preview, None);
    assert!(!r.interesting);
    assert!(findings.is_empty());
}

#[test]
fn other_replies_are_recorded() {
    let mut findings = Vec::new();
    let r = record_fuzz_reply(&mut findings, 0x85, FuzzFormat::Medium, &[0x01, 0x00]);
    assert!(r.interesting);
    assert_eq!(r.status, vec![0x01, 0x00]);
    assert_eq!(r.preview, None);

    let r = record_fuzz_reply(&mut findings, 0x86, FuzzFormat::Short, &[]);
    assert!(r.interesting);
    assert!(r.status.is_empty());
    assert_eq!(r.preview, None);

    let r = record_fuzz_reply(&mut findings, 0x87, FuzzFormat::Short, &[0x00]);
    assert!(r.interesting);
    assert_eq!(r.status, vec![0x00]);

    let long: Vec<u8> = (0u8..20).collect();
    let r = record_fuzz_reply(&mut findings, 0x88, FuzzFormat::Medium, &long);
    assert!(r.interesting);
    assert_eq!(r.len, 20);
    assert_eq!(r.status, vec![0, 1]);
    assert_eq!(r.preview, Some((0u8..16).collect::<Vec<u8>>()));

    let r = record_fuzz_reply(&mut findings, 0x89, FuzzFormat::Medium, &[0x00, 0x00, 0x00]);
    assert!(r.interesting);
    assert_eq!(r.preview, Some(vec![0, 0, 0]));

    assert_eq!(
        findings,
        vec![
            FuzzFinding { command: 0x85, format: 2, len: 2 },
            FuzzFinding { command: 0x86, format: 1, len: 0 },
            FuzzFinding { command: 0x87, format: 1, len: 1 },
            FuzzFinding { command: 0x88, format: 2, len: 20 },
            FuzzFinding { command: 0x89, format: 2, len: 3 },
        ]
    );
}

#[test]
fn kmbox_range_fuzzing_needs_no_echo() {
    for step in fuzz_plan(0x80, 0x8F, true) {
        if let FuzzStep::Probe { command, .. } = step {
            assert!(is_kmbox_command_byte(command));
            assert_eq!(check_response_echo(&[command, 0x02, 0x00], &[0x00, 0x00]), Ok(()));
            assert_eq!(check_response_echo(&[command], &[]), Ok(()));
        }
    }
}
