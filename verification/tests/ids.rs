use std::collections::HashSet;

use veecle_telemetry::hexfmt::IntErrorKind;
use veecle_telemetry::id::{SpanIdCounter, 
    ParseSpanContextError, ParseThreadIdError, ProcessId, SpanContext, SpanId, ThreadId,
};
use veecle_telemetry::protocol::{ExecutionId, ParseExecutionIdError, ThreadId as BareThreadId};
use veecle_telemetry::wire::{HexError, WireError};

#[test]
fn span_id_next_id_produces_non_zero_values() {
    let mut counter = SpanIdCounter::new();
    let ids: Vec<SpanId> = (0..100).map(|_| SpanId::next_id(&mut counter)).collect();

    for id in &ids {
        assert_ne!(id.0, 0, "SpanId::next_id() should not produce zero values");
    }

    let mut unique_ids = HashSet::new();
    for id in &ids {
        assert!(
            unique_ids.insert(id.0),
            "SpanId::next_id() should produce unique values"
        );
    }
}

#[test]
fn thread_id_format_from_str_roundtrip() {
    let test_cases = [0u64, 1, 0x123, 0xFEDCBA9876543210, u64::MAX, u64::MAX - 1];

    for value in test_cases {
        let thread_id = BareThreadId::from_raw(value);
        let formatted = thread_id.to_string();
        let parsed = formatted.parse::<BareThreadId>().unwrap();
        assert_eq!(thread_id, parsed, "Failed roundtrip for value {value:#x}");
    }
}

#[test]
fn execution_id_format_from_str_roundtrip() {
    let test_cases = [
        ExecutionId {
            process: ProcessId::from_raw(0),
            thread: BareThreadId::from_raw(0),
        },
        ExecutionId {
            process: ProcessId::from_raw(0x123456789ABCDEF0FEDCBA9876543210),
            thread: BareThreadId::from_raw(0xFEDCBA9876543210),
        },
        ExecutionId {
            process: ProcessId::from_raw(u128::MAX),
            thread: BareThreadId::from_raw(u64::MAX),
        },
        ExecutionId {
            process: ProcessId::from_raw(1),
            thread: BareThreadId::from_raw(1),
        },
    ];

    for execution_id in test_cases {
        let formatted = execution_id.to_string();
        let parsed = formatted.parse::<ExecutionId>().unwrap();
        assert_eq!(
            execution_id,
            parsed,
            "Failed roundtrip for {:#x}:{:#x}",
            execution_id.process.to_raw(),
            execution_id.thread.0
        );
    }
}

#[test]
fn span_id_text_and_wire_forms() {
    let cases = [
        (SpanId(0), "0000000000000000", "0000000000000000"),
        (SpanId(1), "0100000000000000", "0000000000000001"),
        (SpanId(0x123), "2301000000000000", "0000000000000123"),
        (SpanId(u64::MAX), "ffffffffffffffff", "ffffffffffffffff"),
        (SpanId(0xFEDCBA9876543210), "1032547698badcfe", "fedcba9876543210"),
    ];
    for (value, wire, display) in cases {
        assert_eq!(value.to_wire(), wire);
        assert_eq!(SpanId::from_wire(wire).unwrap(), value);
        assert_eq!(value.to_string(), display);
        assert_eq!(SpanId::from_str(display).unwrap(), value);
    }
}

#[test]
fn process_id_text_and_wire_forms() {
    let cases = [
        (0u128, "00000000000000000000000000000000", "00000000000000000000000000000000"),
        (1, "01000000000000000000000000000000", "00000000000000000000000000000001"),
        (0x123, "23010000000000000000000000000000", "00000000000000000000000000000123"),
        (
            0x123456789ABCDEF0FEDCBA9876543210,
            "1032547698badcfef0debc9a78563412",
            "123456789abcdef0fedcba9876543210",
        ),
        (u128::MAX, "ffffffffffffffffffffffffffffffff", "ffffffffffffffffffffffffffffffff"),
    ];
    for (raw, wire, display) in cases {
        let value = ProcessId::from_raw(raw);
        assert_eq!(value.to_wire(), wire);
        assert_eq!(ProcessId::from_wire(wire).unwrap(), value);
        assert_eq!(value.to_string(), display);
        assert_eq!(ProcessId::from_str(display).unwrap(), value);
    }
}

#[test]
fn thread_id_text_and_wire_forms() {
    let cases = [
        (
            0u128,
            1u64,
            "00000000000000000000000000000000:0100000000000000",
            "00000000000000000000000000000000:0000000000000001",
        ),
        (
            0x123,
            0x456,
            "23010000000000000000000000000000:5604000000000000",
            "00000000000000000000000000000123:0000000000000456",
        ),
        (
            u128::MAX,
            u64::MAX,
            "ffffffffffffffffffffffffffffffff:ffffffffffffffff",
            "ffffffffffffffffffffffffffffffff:ffffffffffffffff",
        ),
        (
            0x123456789ABCDEF0FEDCBA9876543210,
            0xFEDCBA9876543210,
            "1032547698badcfef0debc9a78563412:1032547698badcfe",
            "123456789abcdef0fedcba9876543210:fedcba9876543210",
        ),
    ];
    for (process, raw, wire, display) in cases {
        let value = ThreadId::from_raw(ProcessId::from_raw(process), raw);
        assert_eq!(value.to_wire(), wire);
        assert_eq!(ThreadId::from_wire(wire).unwrap(), value);
        assert_eq!(value.to_string(), display);
        assert_eq!(ThreadId::from_str(display).unwrap(), value);
        assert_eq!(display.parse::<ThreadId>().unwrap(), value);
        assert_eq!(value.process().to_raw(), process);
        assert_eq!(value.raw(), raw);
    }
}

#[test]
fn span_context_text_and_wire_forms() {
    let cases = [
        (
            0u128,
            0u64,
            "00000000000000000000000000000000:0000000000000000",
            "00000000000000000000000000000000:0000000000000000",
        ),
        (
            0x123,
            0x456,
            "23010000000000000000000000000000:5604000000000000",
            "00000000000000000000000000000123:0000000000000456",
        ),
        (
            u128::MAX,
            u64::MAX,
            "ffffffffffffffffffffffffffffffff:ffffffffffffffff",
            "ffffffffffffffffffffffffffffffff:ffffffffffffffff",
        ),
        (
            0x123456789ABCDEF0FEDCBA9876543210,
            0xFEDCBA9876543210,
            "1032547698badcfef0debc9a78563412:1032547698badcfe",
            "123456789abcdef0fedcba9876543210:fedcba9876543210",
        ),
    ];
    for (process, span, wire, display) in cases {
        let value = SpanContext::new(ProcessId::from_raw(process), SpanId(span));
        assert_eq!(value.to_wire(), wire);
        assert_eq!(SpanContext::from_wire(wire).unwrap(), value);
        assert_eq!(value.to_string(), display);
        assert_eq!(SpanContext::from_str(display).unwrap(), value);
        assert_eq!(display.parse::<SpanContext>().unwrap(), value);
    }
}

#[test]
fn execution_id_wire_form() {
    let value = ExecutionId {
        process: ProcessId::from_raw(0x123),
        thread: BareThreadId::from_raw(0x456),
    };
    assert_eq!(
        value.to_wire(),
        "23010000000000000000000000000000:5604000000000000"
    );
    assert_eq!(ExecutionId::from_wire(&value.to_wire()).unwrap(), value);
    assert_eq!(
        value.to_string(),
        "00000000000000000000000000000123:0000000000000456"
    );
    assert_eq!(BareThreadId::from_raw(0x456).to_wire(), "5604000000000000");
}

#[test]
fn span_id_from_str_errors() {
    assert_eq!(SpanId::from_str("").unwrap_err().kind(), IntErrorKind::Empty);
    assert_eq!(
        SpanId::from_str("xyz").unwrap_err().kind(),
        IntErrorKind::InvalidDigit
    );
    assert_eq!(
        SpanId::from_str("10000000000000000").unwrap_err().kind(),
        IntErrorKind::PosOverflow
    );
    assert_eq!(SpanId::from_str("+ff").unwrap(), SpanId(0xff));
    assert_eq!(SpanId::from_str("FF").unwrap(), SpanId(0xff));
}

#[test]
fn process_id_from_str_errors() {
    assert!(ProcessId::from_str("").is_err());
    assert!(ProcessId::from_str("ffffffffffffffffffffffffffffffff0").is_err());
    assert!(ProcessId::from_str("xyz").is_err());
}

#[test]
fn thread_id_from_str_errors() {
    let missing = ThreadId::from_str("").unwrap_err();
    assert_eq!(missing, ParseThreadIdError::MissingSeparator);
    assert_eq!(missing.to_string(), "missing ':' separator");
    assert_eq!(
        ThreadId::from_str("00000000000000000000000000000000").unwrap_err(),
        ParseThreadIdError::MissingSeparator
    );
    assert_eq!(
        ThreadId::from_str("00000000000000000000000000000000:0000000000000000").unwrap_err(),
        ParseThreadIdError::ZeroThreadId
    );
    assert!(matches!(
        ThreadId::from_str("00000000000000000000000000000000:xyz").unwrap_err(),
        ParseThreadIdError::InvalidThreadId(_)
    ));
    assert!(matches!(
        ThreadId::from_str("00000000000000000000000000000001:").unwrap_err(),
        ParseThreadIdError::InvalidThreadId(_)
    ));
    assert!(matches!(
        ThreadId::from_str(":0000000000000001").unwrap_err(),
        ParseThreadIdError::InvalidProcessId(_)
    ));
    assert!(ThreadId::from_str("xyz").is_err());
    assert!(matches!(
        ThreadId::from_str("xyz:0000000000000001").unwrap_err(),
        ParseThreadIdError::InvalidProcessId(_)
    ));
}

#[test]
fn span_context_from_str_errors() {
    assert_eq!(
        SpanContext::from_str("").unwrap_err(),
        ParseSpanContextError::MissingSeparator
    );
    assert!(SpanContext::from_str("00000000000000000000000000000000").is_err());
    assert!(matches!(
        SpanContext::from_str("00000000000000000000000000000000:xyz").unwrap_err(),
        ParseSpanContextError::InvalidSpanId(_)
    ));
    assert!(SpanContext::from_str("00000000000000000000000000000001:").is_err());
    assert!(matches!(
        SpanContext::from_str(":0000000000000000").unwrap_err(),
        ParseSpanContextError::InvalidProcessId(_)
    ));
    assert!(SpanContext::from_str("xyz").is_err());
    assert!(SpanContext::from_str("xyz:0000000000000000").is_err());
}

#[test]
fn wire_errors() {
    assert!(matches!(
        SpanId::from_wire("0100"),
        Err(WireError::Hex(_))
    ));
    assert!(matches!(
        SpanId::from_wire("zz00000000000000"),
        Err(WireError::Hex(_))
    ));
    assert_eq!(
        ThreadId::from_wire("00000000000000000000000000000000:0000000000000000"),
        Err(WireError::ZeroThreadId)
    );
    assert_eq!(
        ThreadId::from_wire("00000000000000000000000000000000-0100000000000000"),
        Err(WireError::MissingSeparator)
    );
    assert_eq!(
        SpanContext::from_wire("0000"),
        Err(WireError::InvalidLength(4))
    );
    assert_eq!(SpanId::from_wire("FFFFFFFFFFFFFFFF").unwrap(), SpanId(u64::MAX));
}

#[test]
fn random_process_ids_differ() {
    let mut rng = rand::rng();
    let a = ProcessId::random(&mut rng);
    let b = ProcessId::random(&mut rng);
    assert_ne!(a, b);
}

#[test]
fn hex_error_variants() {
    assert_eq!(SpanId::from_wire("abc"), Err(WireError::Hex(HexError::OddLength)));
    assert_eq!(SpanId::from_wire("0100"), Err(WireError::Hex(HexError::InvalidStringLength)));
    assert_eq!(
        SpanId::from_wire("01000000000000zz"),
        Err(WireError::Hex(HexError::InvalidHexCharacter { c: 'z', index: 14 }))
    );
}

#[test]
fn execution_id_from_str_errors() {
    assert_eq!(
        ExecutionId::from_str("").unwrap_err(),
        ParseExecutionIdError::MissingSeparator
    );
    assert!(matches!(
        ExecutionId::from_str("xyz:0").unwrap_err(),
        ParseExecutionIdError::InvalidProcessId(_)
    ));
    assert!(matches!(
        ExecutionId::from_str("0:xyz").unwrap_err(),
        ParseExecutionIdError::InvalidThreadId(_)
    ));
    assert_eq!(
        ExecutionId::from_str("1:2").unwrap(),
        ExecutionId { process: ProcessId::from_raw(1), thread: BareThreadId::from_raw(2) }
    );
}

#[test]
fn span_ids_count_up_from_one() {
    let mut counter = SpanIdCounter::new();
    assert_eq!(counter.peek(), 1);
    assert_eq!(SpanId::next_id(&mut counter), SpanId(1));
    assert_eq!(SpanId::next_id(&mut counter), SpanId(2));
    assert_eq!(counter.peek(), 3);
}
