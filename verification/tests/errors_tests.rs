use rusvm::errors::{DecodeError, PoolError, Section};

#[test]
fn every_error_carries_a_readable_cause() {
    let cases = [
        DecodeError::OutOfBounds { requested: 4, remaining: 1 },
        DecodeError::MalformedPool { err: PoolError::InvalidCount },
        DecodeError::MalformedPool { err: PoolError::UnknownTag { tag: 2, offset: 9 } },
        DecodeError::MalformedPool { err: PoolError::IndexOutOfRange { index: 0, limit: 3 } },
        DecodeError::MalformedPool { err: PoolError::CyclicReference { index: 1 } },
        DecodeError::MalformedPool { err: PoolError::NotText { index: 2 } },
        DecodeError::MalformedPool { err: PoolError::InvalidUtf8 { offset: 5 } },
        DecodeError::MalformedPool { err: PoolError::WideEntryOverrun { offset: 7 } },
        DecodeError::UnsupportedSection { section: Section::Interfaces },
        DecodeError::UnsupportedSection { section: Section::Fields },
        DecodeError::UnknownOpcode { opcode: 0, offset: 3 },
        DecodeError::TruncatedInstruction { opcode: 0x12, offset: 8 },
        DecodeError::AttributeLengthMismatch { declared: 5, consumed: 4 },
    ];
    for e in cases {
        assert!(!e.describe().is_empty());
    }
}

#[test]
fn causes_name_their_condition() {
    assert_eq!(
        DecodeError::OutOfBounds { requested: 2, remaining: 0 }.describe(),
        "read past the end of the input"
    );
    assert_eq!(
        DecodeError::MalformedPool { err: PoolError::CyclicReference { index: 1 } }.describe(),
        "cyclic constant pool reference"
    );
    assert_eq!(
        DecodeError::UnsupportedSection { section: Section::Fields }.describe(),
        "field table entries are not supported"
    );
    assert_eq!(
        DecodeError::AttributeLengthMismatch { declared: 5, consumed: 4 }.describe(),
        "attribute payload length mismatch"
    );
}
