//! The errors that decoding and validating a record can end in.

use crate::groth16::VerifyError;
use crate::wire::WireError;
use vstd::prelude::*;
use vstd::string::StringExecFns;

verus! {

/// The field of a record that an error speaks of.
#[derive(Clone, Copy, Debug, PartialEq, Eq, Structural)]
pub enum Field {
    Root,
    Commitment,
    IdentityScalar,
    Blinding,
    /// The sibling of a path node, by its level.
    PathSibling(usize),
    /// An entry of a list of siblings, by its level.
    Sibling(usize),
    DomainSep,
    CtxHash,
    Id,
    R1,
    R2,
    C1Hash,
    C2Hash,
    Tag,
}

/// The record, or part of a record, that carried a version tag.
#[derive(Clone, Copy, Debug, PartialEq, Eq, Structural)]
pub enum Scope {
    Instance,
    PublicInputs,
    Witness,
}

/// The name of the field that carries the version tag of a membership
/// record: `version` in the first versioned schema, `schema_version` in the
/// second.
#[derive(Clone, Copy, Debug, PartialEq, Eq, Structural)]
pub enum VersionTag {
    Version,
    SchemaVersion,
}

/// The broad class of an error.
#[derive(Clone, Copy, Debug, PartialEq, Eq, Structural)]
pub enum ErrorKind {
    /// Field bytes of a wrong length.
    Encoding,
    /// A version, statement tag, domain separator, depth or length that
    /// disagrees with what the record must hold.
    Schema,
    /// A public value that is not what the witness hashes to.
    Invariant,
}

/// Why a record was rejected.
#[allow(inconsistent_fields)]
#[derive(Clone, Copy, Debug, PartialEq, Eq, Structural)]
pub enum SchemaError {
    EmptyFieldBytes { field: Field },
    OversizedFieldBytes { field: Field, len: usize },
    /// The version tag of a membership record is not the expected one.
    VersionMismatch { scope: Scope, tag: VersionTag, expected: u16, got: u16 },
    /// The schema version of a continuity or unlinkability record is not the
    /// expected one.
    SchemaVersionMismatch { scope: Scope, expected: u16, got: u16 },
    StatementTypeMismatch { expected: u16, got: u16 },
    StatementVersionMismatch { expected: u16, got: u16 },
    DomainSepMismatch { scope: Scope },
    ZeroDepth,
    PathLengthMismatch { expected: usize, got: usize },
    WitnessDepthMismatch { expected: usize, got: u32 },
    SiblingsLengthMismatch { expected: usize, got: usize },
    DirectionsLengthMismatch { expected: usize, got: usize },
    InstanceDepthMismatch { public_inputs: usize, witness: u32 },
    PathListsMismatch { siblings: usize, directions: usize },
    EmptyPath,
    CommitmentMismatch,
    RootMismatch,
    C1HashMismatch,
    C2HashMismatch,
    TagMismatch,
}

/// Why an operation on encoded records failed.
#[derive(Clone, Copy, Debug, PartialEq, Eq, Structural)]
pub enum Error {
    /// The bytes are not the encoding of a record.
    Wire(WireError),
    /// The record was rejected.
    Schema(SchemaError),
    /// The verification did not come to a verdict.
    Verify(VerifyError),
}

impl SchemaError {
    /// The class of the error.
    pub open spec fn spec_kind(self) -> ErrorKind {
        match self {
            SchemaError::EmptyFieldBytes { .. } | SchemaError::OversizedFieldBytes { .. } => {
                ErrorKind::Encoding
            },
            SchemaError::CommitmentMismatch
            | SchemaError::RootMismatch
            | SchemaError::C1HashMismatch
            | SchemaError::C2HashMismatch
            | SchemaError::TagMismatch => ErrorKind::Invariant,
            _ => ErrorKind::Schema,
        }
    }

    /// The class of the error.
    pub fn kind(&self) -> (kind: ErrorKind)
        ensures
            kind == self.spec_kind(),
    {
        match self {
            SchemaError::EmptyFieldBytes { .. } | SchemaError::OversizedFieldBytes { .. } => {
                ErrorKind::Encoding
            },
            SchemaError::CommitmentMismatch
            | SchemaError::RootMismatch
            | SchemaError::C1HashMismatch
            | SchemaError::C2HashMismatch
            | SchemaError::TagMismatch => ErrorKind::Invariant,
            _ => ErrorKind::Schema,
        }
    }
}

impl Scope {
    /// The name of the scope in messages.
    pub fn label(&self) -> (label: &'static str)
        ensures
            label@ == self.label_text(),
    {
        match self {
            Scope::Instance => "instance",
            Scope::PublicInputs => "public_inputs",
            Scope::Witness => "witness",
        }
    }
}

impl VersionTag {
    /// The name of the tag in messages.
    pub fn label(&self) -> (label: &'static str)
        ensures
            label@ == self.label_text(),
    {
        match self {
            VersionTag::Version => "version",
            VersionTag::SchemaVersion => "schema_version",
        }
    }
}

impl Field {
    /// The name of the field in messages: its name in the record, with the
    /// level in square brackets where the field is a sibling.
    pub fn label(&self) -> (label: String)
        ensures
            label@ == self.label_text(),
    {
        match self {
            Field::Root => String::from_str("root"),
            Field::Commitment => String::from_str("commitment"),
            Field::IdentityScalar => String::from_str("identity_scalar"),
            Field::Blinding => String::from_str("blinding"),
            Field::PathSibling(level) => {
                let number = decimal(*level as u64);
                String::from_str("merkle_path[").concat(number.as_str()).concat("].sibling")
            },
            Field::Sibling(level) => {
                let number = decimal(*level as u64);
                String::from_str("merkle_siblings[").concat(number.as_str()).concat("]")
            },
            Field::DomainSep => String::from_str("domain_sep"),
            Field::CtxHash => String::from_str("ctx_hash"),
            Field::Id => String::from_str("id"),
            Field::R1 => String::from_str("r1"),
            Field::R2 => String::from_str("r2"),
            Field::C1Hash => String::from_str("c1_hash"),
            Field::C2Hash => String::from_str("c2_hash"),
            Field::Tag => String::from_str("tag"),
        }
    }
}

/// `text` followed by two numbers: `(expected a, got b)`.
fn expected_got(text: String, expected: u64, got: u64) -> (message: String)
    ensures
        message@ == expected_got_text(text@, expected as nat, got as nat),
{
    let first = decimal(expected);
    let second = decimal(got);
    text.concat(" (expected ").concat(first.as_str()).concat(", got ").concat(
        second.as_str(),
    ).concat(")")
}

/// `text` followed by two numbers: `: expected a, got b`.
fn expected_but_got(text: &str, expected: u64, got: u64) -> (message: String)
    ensures
        message@ == expected_but_got_text(text@, expected as nat, got as nat),
{
    let first = decimal(expected);
    let second = decimal(got);
    String::from_str(text).concat(": expected ").concat(first.as_str()).concat(", got ").concat(
        second.as_str(),
    )
}

impl SchemaError {
    /// The error in words.
    pub fn message(&self) -> (message: String)
        ensures
            message@ == self.message_text(),
    {
        match self {
            SchemaError::EmptyFieldBytes { field } => field.label().concat(": empty field bytes"),
            SchemaError::OversizedFieldBytes { field, len } => {
                let number = decimal(*len as u64);
                field.label().concat(": expected at most 32 bytes, got ").concat(number.as_str())
            },
            SchemaError::VersionMismatch { scope, tag, expected, got } => expected_got(
                String::from_str(scope.label()).concat(".").concat(tag.label()).concat(
                    ": version mismatch",
                ),
                *expected as u64,
                *got as u64,
            ),
            SchemaError::SchemaVersionMismatch { scope, expected, got } => expected_got(
                String::from_str(scope.label()).concat(
                    ".schema_version: schema_version mismatch",
                ),
                *expected as u64,
                *got as u64,
            ),
            SchemaError::StatementTypeMismatch { expected, got } => expected_got(
                String::from_str("statement_type mismatch"),
                *expected as u64,
                *got as u64,
            ),
            SchemaError::StatementVersionMismatch { expected, got } => expected_got(
                String::from_str("statement_version mismatch"),
                *expected as u64,
                *got as u64,
            ),
            SchemaError::DomainSepMismatch { scope } => String::from_str(scope.label()).concat(
                ".domain_sep: domain_sep mismatch",
            ),
            SchemaError::ZeroDepth => String::from_str("public_inputs.depth must be > 0"),
            SchemaError::PathLengthMismatch { expected, got } => expected_but_got(
                "merkle_path length mismatch",
                *expected as u64,
                *got as u64,
            ),
            SchemaError::WitnessDepthMismatch { expected, got } => expected_but_got(
                "witness.depth mismatch",
                *expected as u64,
                *got as u64,
            ),
            SchemaError::SiblingsLengthMismatch { expected, got } => expected_but_got(
                "merkle_siblings length mismatch",
                *expected as u64,
                *got as u64,
            ),
            SchemaError::DirectionsLengthMismatch { expected, got } => expected_but_got(
                "merkle_directions length mismatch",
                *expected as u64,
                *got as u64,
            ),
            SchemaError::InstanceDepthMismatch { public_inputs, witness } => {
                let first = decimal(*public_inputs as u64);
                let second = decimal(*witness as u64);
                String::from_str("instance.depth mismatch: public_inputs ").concat(
                    first.as_str(),
                ).concat(", witness ").concat(second.as_str())
            },
            SchemaError::PathListsMismatch { .. } => String::from_str(
                "merkle_siblings and merkle_is_left length mismatch",
            ),
            SchemaError::EmptyPath => String::from_str("merkle_path must not be empty"),
            SchemaError::CommitmentMismatch => String::from_str(
                "commitment does not match commitment hash",
            ),
            SchemaError::RootMismatch => String::from_str("root does not match merkle path"),
            SchemaError::C1HashMismatch => String::from_str(
                "c1_hash does not match commitment hash",
            ),
            SchemaError::C2HashMismatch => String::from_str(
                "c2_hash does not match commitment hash",
            ),
            SchemaError::TagMismatch => String::from_str("tag does not match computed value"),
        }
    }
}

/// A decimal digit as text.
fn digit(value: u8) -> (text: &'static str)
    requires
        value < 10,
    ensures
        text@ == digit_text(value as nat),
{
    match value {
        0 => "0",
        1 => "1",
        2 => "2",
        3 => "3",
        4 => "4",
        5 => "5",
        6 => "6",
        7 => "7",
        8 => "8",
        _ => "9",
    }
}

/// A number in decimal digits.
fn decimal(number: u64) -> (text: String)
    ensures
        text@ == decimal_text(number as nat),
{
    let mut digits: Vec<u8> = Vec::new();
    let mut rest = number;
    proof {
        assert(digits@ =~= Seq::<u8>::empty());
        assert(decimal_text(rest as nat) + reversed_digits_text(digits@) =~= decimal_text(
            rest as nat,
        ));
    }
    loop
        invariant_except_break
            decimal_text(number as nat) == decimal_text(rest as nat) + reversed_digits_text(
                digits@,
            ),
        invariant
            forall|i: int| 0 <= i < digits@.len() ==> digits@[i] < 10,
        ensures
            decimal_text(number as nat) == reversed_digits_text(digits@),
        decreases rest,
    {
        let ghost before = digits@;
        let ghost whole = rest;
        digits.push((rest % 10) as u8);
        rest = rest / 10;
        proof {
            assert(digits@.drop_last() =~= before);
            let last = digit_text((whole % 10) as nat);
            assert(reversed_digits_text(digits@) == last + reversed_digits_text(before));
            if whole < 10 {
                assert(decimal_text(whole as nat) == last);
            } else {
                assert(decimal_text(whole as nat) == decimal_text(rest as nat) + last);
                assert(decimal_text(rest as nat) + last + reversed_digits_text(before)
                    =~= decimal_text(rest as nat) + (last + reversed_digits_text(before)));
            }
        }
        if rest == 0 {
            break ;
        }
    }
    let mut text = String::from_str("");
    let mut left = digits.len();
    proof {
        reveal_strlit("");
        assert(text@ =~= Seq::<char>::empty());
        assert(digits@.subrange(0, left as int) =~= digits@);
        assert(text@ + reversed_digits_text(digits@) =~= reversed_digits_text(digits@));
    }
    while left > 0
        invariant
            left <= digits@.len(),
            forall|i: int| 0 <= i < digits@.len() ==> digits@[i] < 10,
            text@ + reversed_digits_text(digits@.subrange(0, left as int))
                == reversed_digits_text(digits@),
        decreases left,
    {
        let ghost before = text@;
        let ghost upto = digits@.subrange(0, left as int);
        left = left - 1;
        text = text.concat(digit(digits[left]));
        proof {
            assert(upto.drop_last() =~= digits@.subrange(0, left as int));
            assert(upto.last() == digits@[left as int]);
            let last = digit_text(digits@[left as int] as nat);
            assert(before + last + reversed_digits_text(digits@.subrange(0, left as int))
                =~= before + (last + reversed_digits_text(digits@.subrange(0, left as int))));
        }
    }
    proof {
        assert(digits@.subrange(0, 0) =~= Seq::<u8>::empty());
        assert(text@ + Seq::<char>::empty() =~= text@);
    }
    text
}

/// The text of a decimal digit.
pub open spec fn digit_text(digit: nat) -> Seq<char> {
    if digit == 0 {
        "0"@
    } else if digit == 1 {
        "1"@
    } else if digit == 2 {
        "2"@
    } else if digit == 3 {
        "3"@
    } else if digit == 4 {
        "4"@
    } else if digit == 5 {
        "5"@
    } else if digit == 6 {
        "6"@
    } else if digit == 7 {
        "7"@
    } else if digit == 8 {
        "8"@
    } else {
        "9"@
    }
}

/// A number in decimal digits, the most significant first, without leading
/// zeros.
pub open spec fn decimal_text(number: nat) -> Seq<char>
    decreases number,
{
    if number < 10 {
        digit_text(number)
    } else {
        decimal_text(number / 10) + digit_text(number % 10)
    }
}

/// The text of a list of digits read from its end to its start.
pub open spec fn reversed_digits_text(digits: Seq<u8>) -> Seq<char>
    decreases digits.len(),
{
    if digits.len() == 0 {
        Seq::empty()
    } else {
        digit_text(digits.last() as nat) + reversed_digits_text(digits.drop_last())
    }
}

/// `text` followed by ` (expected a, got b)`.
pub open spec fn expected_got_text(text: Seq<char>, expected: nat, got: nat) -> Seq<char> {
    text + " (expected "@ + decimal_text(expected) + ", got "@ + decimal_text(got) + ")"@
}

/// `text` followed by `: expected a, got b`.
pub open spec fn expected_but_got_text(text: Seq<char>, expected: nat, got: nat) -> Seq<char> {
    text + ": expected "@ + decimal_text(expected) + ", got "@ + decimal_text(got)
}

impl Scope {
    /// The name of the scope in messages.
    pub open spec fn label_text(self) -> Seq<char> {
        match self {
            Scope::Instance => "instance"@,
            Scope::PublicInputs => "public_inputs"@,
            Scope::Witness => "witness"@,
        }
    }
}

impl VersionTag {
    /// The name of the tag in messages.
    pub open spec fn label_text(self) -> Seq<char> {
        match self {
            VersionTag::Version => "version"@,
            VersionTag::SchemaVersion => "schema_version"@,
        }
    }
}

impl Field {
    /// The name of the field in messages.
    pub open spec fn label_text(self) -> Seq<char> {
        match self {
            Field::Root => "root"@,
            Field::Commitment => "commitment"@,
            Field::IdentityScalar => "identity_scalar"@,
            Field::Blinding => "blinding"@,
            Field::PathSibling(level) => "merkle_path["@ + decimal_text(level as nat)
                + "].sibling"@,
            Field::Sibling(level) => "merkle_siblings["@ + decimal_text(level as nat) + "]"@,
            Field::DomainSep => "domain_sep"@,
            Field::CtxHash => "ctx_hash"@,
            Field::Id => "id"@,
            Field::R1 => "r1"@,
            Field::R2 => "r2"@,
            Field::C1Hash => "c1_hash"@,
            Field::C2Hash => "c2_hash"@,
            Field::Tag => "tag"@,
        }
    }
}

impl SchemaError {
    /// The error in words.
    pub open spec fn message_text(self) -> Seq<char> {
        match self {
            SchemaError::EmptyFieldBytes { field } => field.label_text() + ": empty field bytes"@,
            SchemaError::OversizedFieldBytes { field, len } => field.label_text()
                + ": expected at most 32 bytes, got "@ + decimal_text(len as nat),
            SchemaError::VersionMismatch { scope, tag, expected, got } => expected_got_text(
                scope.label_text() + "."@ + tag.label_text() + ": version mismatch"@,
                expected as nat,
                got as nat,
            ),
            SchemaError::SchemaVersionMismatch { scope, expected, got } => expected_got_text(
                scope.label_text() + ".schema_version: schema_version mismatch"@,
                expected as nat,
                got as nat,
            ),
            SchemaError::StatementTypeMismatch { expected, got } => expected_got_text(
                "statement_type mismatch"@,
                expected as nat,
                got as nat,
            ),
            SchemaError::StatementVersionMismatch { expected, got } => expected_got_text(
                "statement_version mismatch"@,
                expected as nat,
                got as nat,
            ),
            SchemaError::DomainSepMismatch { scope } => scope.label_text()
                + ".domain_sep: domain_sep mismatch"@,
            SchemaError::ZeroDepth => "public_inputs.depth must be > 0"@,
            SchemaError::PathLengthMismatch { expected, got } => expected_but_got_text(
                "merkle_path length mismatch"@,
                expected as nat,
                got as nat,
            ),
            SchemaError::WitnessDepthMismatch { expected, got } => expected_but_got_text(
                "witness.depth mismatch"@,
                expected as nat,
                got as nat,
            ),
            SchemaError::SiblingsLengthMismatch { expected, got } => expected_but_got_text(
                "merkle_siblings length mismatch"@,
                expected as nat,
                got as nat,
            ),
            SchemaError::DirectionsLengthMismatch { expected, got } => expected_but_got_text(
                "merkle_directions length mismatch"@,
                expected as nat,
                got as nat,
            ),
            SchemaError::InstanceDepthMismatch { public_inputs, witness } =>
                "instance.depth mismatch: public_inputs "@ + decimal_text(public_inputs as nat)
                    + ", witness "@ + decimal_text(witness as nat),
            SchemaError::PathListsMismatch { .. } =>
                "merkle_siblings and merkle_is_left length mismatch"@,
            SchemaError::EmptyPath => "merkle_path must not be empty"@,
            SchemaError::CommitmentMismatch => "commitment does not match commitment hash"@,
            SchemaError::RootMismatch => "root does not match merkle path"@,
            SchemaError::C1HashMismatch => "c1_hash does not match commitment hash"@,
            SchemaError::C2HashMismatch => "c2_hash does not match commitment hash"@,
            SchemaError::TagMismatch => "tag does not match computed value"@,
        }
    }
}

} // verus!
