//! Task templates from comma-separated records: the record's fields, the
//! clock time of the nominal start, and the labels.

use crate::clock::{clock_reading, local_midnight_timestamp, parse_clock, text_from_bytes};
use crate::program::UnscheduledProgram;
use vstd::prelude::*;
use vstd::string::StringSliceAdditionalSpecFns;
use vstd::utf8::encode_utf8;

verus! {

broadcast use {vstd::utf8::encode_utf8_decode_utf8, vstd::utf8::encode_utf8_valid_utf8};

/// A record holds exactly this many fields.
pub const FIELD_COUNT: usize = 12;

/// The field that holds the task's name.
pub const NAME_FIELD: usize = 0;

/// The field that holds the nominal start, as `HH:MM`.
pub const CLOCK_FIELD: usize = 3;

/// The field that holds the resource group.
pub const GROUP_FIELD: usize = 11;

/// The byte that separates fields: `,`.
pub const COMMA: u8 = 44;

/// Why a record could not be read.
#[derive(Debug, Clone, Copy, PartialEq, Eq, Structural)]
pub enum InputError {
    /// The record did not split into `FIELD_COUNT` fields; this many were found.
    FieldCount(usize),
    /// A field that is read as text is not valid UTF-8.
    InvalidText,
    /// The start field is not a clock time `HH:MM`.
    InvalidClock,
    /// The start lies before the Unix epoch.
    BeforeEpoch,
}

/// The fields of `s` between its commas, the empty ones included.
pub open spec fn split_fields(s: Seq<u8>) -> Seq<Seq<u8>>
    decreases s.len(),
{
    if s.len() == 0 {
        seq![Seq::<u8>::empty()]
    } else {
        let before = split_fields(s.drop_last());
        if s.last() == COMMA {
            before.push(Seq::<u8>::empty())
        } else {
            before.update(before.len() - 1, before.last().push(s.last()))
        }
    }
}

pub proof fn lemma_split_fields_nonempty(s: Seq<u8>)
    ensures
        1 <= split_fields(s).len() <= s.len() + 1,
    decreases s.len(),
{
    if s.len() > 0 {
        lemma_split_fields_nonempty(s.drop_last());
    }
}

pub open spec fn views_of(v: Seq<Vec<u8>>) -> Seq<Seq<u8>> {
    v.map_values(|f: Vec<u8>| f@)
}

/// Splits a record at its commas; a record without exactly `FIELD_COUNT`
/// fields is an error that gives the count found.
pub fn parse_input(input: &str) -> (r: Result<Vec<Vec<u8>>, InputError>)
    ensures
        r is Ok <==> split_fields(input.spec_bytes()).len() == FIELD_COUNT,
        r matches Ok(f) ==> views_of(f@) == split_fields(input.spec_bytes()),
        r matches Err(e) ==> e == InputError::FieldCount(
            split_fields(input.spec_bytes()).len() as usize,
        ),
{
    let bytes = input.as_bytes();
    let mut fields: Vec<Vec<u8>> = Vec::new();
    let mut current: Vec<u8> = Vec::new();
    let mut k: usize = 0;
    while k < bytes.len()
        invariant
            k <= bytes@.len(),
            bytes@ == input.spec_bytes(),
            views_of(fields@).push(current@) == split_fields(bytes@.subrange(0, k as int)),
        decreases bytes@.len() - k,
    {
        let b = bytes[k];
        let ghost prefix = bytes@.subrange(0, k as int);
        let ghost next = bytes@.subrange(0, k + 1);
        proof {
            assert(next.drop_last() == prefix);
            lemma_split_fields_nonempty(prefix);
        }
        if b == COMMA {
            let done = current;
            fields.push(done);
            current = Vec::new();
            proof {
                assert(views_of(fields@) =~= views_of(fields@.drop_last()).push(done@));
            }
        } else {
            current.push(b);
        }
        proof {
            assert(views_of(fields@).push(current@) =~= split_fields(next));
        }
        k = k + 1;
    }
    fields.push(current);
    proof {
        assert(bytes@.subrange(0, k as int) == bytes@);
        assert(views_of(fields@) =~= split_fields(bytes@));
    }
    if fields.len() != FIELD_COUNT {
        return Err(InputError::FieldCount(fields.len()));
    }
    Ok(fields)
}

/// Seconds after midnight of a clock time.
pub open spec fn clock_offset(h: u32, m: u32) -> int {
    h * 3600 + m * 60
}

/// The instant at clock time `clock` on the day whose midnight is `midnight`.
pub open spec fn start_on_day(clock: Seq<char>, midnight: int) -> Option<int> {
    match clock_reading(clock) {
        Some((h, m)) => Some(midnight + clock_offset(h, m)),
        None => None,
    }
}

/// The start instant of clock time `clock` on the day whose midnight is
/// `today_midnight` (seconds since the epoch).
pub fn parse_clock_string_to_naive_datetime(clock: &str, today_midnight: i64) -> (r: Result<
    u64,
    InputError,
>)
    ensures
        r == match clock_reading(clock@) {
            None => Err(InputError::InvalidClock),
            Some((h, m)) => if today_midnight + clock_offset(h, m) >= 0 {
                Ok((today_midnight + clock_offset(h, m)) as u64)
            } else {
                Err(InputError::BeforeEpoch)
            },
        },
{
    let (h, m) = match parse_clock(clock) {
        Some(hm) => hm,
        None => return Err(InputError::InvalidClock),
    };
    let start: i128 = today_midnight as i128 + (h as i128 * 3600 + m as i128 * 60);
    if start < 0 {
        return Err(InputError::BeforeEpoch);
    }
    Ok(start as u64)
}

impl UnscheduledProgram {
    /// A template from a record's fields, on the day whose midnight is
    /// `today_midnight`. The jitters and the nominal run time are given in
    /// seconds.
    pub fn from_fields(
        tokens: &Vec<Vec<u8>>,
        today_midnight: i64,
        start_time_randomization_secs: u32,
        default_execution_secs: u64,
        execution_time_randomization_secs: u32,
    ) -> (r: Result<UnscheduledProgram, InputError>)
        requires
            tokens@.len() == FIELD_COUNT,
        ensures
            r matches Ok(p) ==> {
                &&& encode_utf8(p.name@) == tokens@[NAME_FIELD as int]@
                &&& encode_utf8(p.program_id@) == tokens@[GROUP_FIELD as int]@
                &&& p.start_time_randomization_secs == start_time_randomization_secs
                &&& p.default_execution_secs == default_execution_secs
                &&& p.execution_time_randomization_secs == execution_time_randomization_secs
                &&& exists|clock: Seq<char>|
                    encode_utf8(clock) == tokens@[CLOCK_FIELD as int]@ && #[trigger] start_on_day(
                        clock,
                        today_midnight as int,
                    ) == Some(p.default_start_time as int)
            },
            r is Ok <==> {
                &&& vstd::utf8::valid_utf8(tokens@[NAME_FIELD as int]@)
                &&& vstd::utf8::valid_utf8(tokens@[GROUP_FIELD as int]@)
                &&& vstd::utf8::valid_utf8(tokens@[CLOCK_FIELD as int]@)
                &&& forall|clock: Seq<char>|
                    encode_utf8(clock) == tokens@[CLOCK_FIELD as int]@ ==> (#[trigger] clock_reading(
                        clock,
                    ) matches Some((h, m)) && today_midnight + clock_offset(h, m) >= 0)
            },
    {
        let name = match text_from_bytes(&tokens[NAME_FIELD]) {
            Some(s) => s,
            None => return Err(InputError::InvalidText),
        };
        let clock = match text_from_bytes(&tokens[CLOCK_FIELD]) {
            Some(s) => s,
            None => return Err(InputError::InvalidText),
        };
        let program_id = match text_from_bytes(&tokens[GROUP_FIELD]) {
            Some(s) => s,
            None => return Err(InputError::InvalidText),
        };
        proof {
            assert forall|c: Seq<char>| encode_utf8(c) == tokens@[CLOCK_FIELD as int]@ implies c
                == clock@ by {
                assert(vstd::utf8::decode_utf8(encode_utf8(c)) == c);
                assert(vstd::utf8::decode_utf8(encode_utf8(clock@)) == clock@);
            }
        }
        let default_start_time = match parse_clock_string_to_naive_datetime(
            clock.as_str(),
            today_midnight,
        ) {
            Ok(t) => t,
            Err(e) => return Err(e),
        };
        assert(start_on_day(clock@, today_midnight as int) == Some(default_start_time as int));
        Ok(
            UnscheduledProgram {
                name,
                default_start_time,
                start_time_randomization_secs,
                default_execution_secs,
                execution_time_randomization_secs,
                program_id,
            },
        )
    }

    /// A template from a record's fields, for today in local time.
    pub fn from(
        tokens: &Vec<Vec<u8>>,
        start_time_randomization_secs: u32,
        default_execution_secs: u64,
        execution_time_randomization_secs: u32,
    ) -> (r: Result<UnscheduledProgram, InputError>)
        requires
            tokens@.len() == FIELD_COUNT,
        ensures
            r matches Ok(p) ==> {
                &&& encode_utf8(p.name@) == tokens@[NAME_FIELD as int]@
                &&& encode_utf8(p.program_id@) == tokens@[GROUP_FIELD as int]@
                &&& p.start_time_randomization_secs == start_time_randomization_secs
                &&& p.default_execution_secs == default_execution_secs
                &&& p.execution_time_randomization_secs == execution_time_randomization_secs
                &&& exists|clock: Seq<char>, midnight: int|
                    encode_utf8(clock) == tokens@[CLOCK_FIELD as int]@ && midnight % 86400 == 0
                        && #[trigger] start_on_day(clock, midnight) == Some(
                        p.default_start_time as int,
                    )
            },
            !vstd::utf8::valid_utf8(tokens@[NAME_FIELD as int]@) ==> r is Err,
            !vstd::utf8::valid_utf8(tokens@[GROUP_FIELD as int]@) ==> r is Err,
            !vstd::utf8::valid_utf8(tokens@[CLOCK_FIELD as int]@) ==> r is Err,
    {
        let today_midnight = local_midnight_timestamp();
        Self::from_fields(
            tokens,
            today_midnight,
            start_time_randomization_secs,
            default_execution_secs,
            execution_time_randomization_secs,
        )
    }
}

} // verus!
