//! The Bridge's command payloads: `|`-separated UTF-8 text in which free text
//! travels as hexadecimal. Each payload that the client sends has a parser on
//! the server side, and each parser reads back what the writer wrote.

use vstd::prelude::*;
use vstd::utf8::{decode_utf8, encode_utf8, valid_utf8};
use crate::error::BridgeError;
use crate::hex::{hex_decode, hex_decoded, hex_encode_into, hex_text, lemma_hex_round_trip, utf8_str};
use crate::text::{
    chars_of, decimal_text, extend_str, is_digit, join_pieces, lex_lt, parse_u16_spec, text_less, trim_bounds, find_char, is_control_char, lemma_decimal_text_no,
    lemma_find_char_joined, lemma_parse_decimal_text, parse_usize_chars, parse_usize_spec,
    push_decimal, split_chars, split_once, split_once_chars, split_pieces, string_of, trim_chars,
    trimmed, views,
};

verus! {

broadcast use {vstd::seq_lib::group_seq_properties, vstd::utf8::group_utf8_lib};

// ---------------------------------------------------------------------------
// Payload text
// ---------------------------------------------------------------------------
/// The characters that payload bytes encode (`std::str::from_utf8`).
pub fn payload_chars(payload: &[u8]) -> (r: Result<Vec<char>, BridgeError>)
    ensures
        match r {
            Ok(v) => valid_utf8(payload@) && v@ == decode_utf8(payload@),
            Err(e) => !valid_utf8(payload@) && e == BridgeError::InvalidPayload,
        },
{
    match utf8_str(payload) {
        Some(t) => Ok(chars_of(t)),
        None => Err(BridgeError::InvalidPayload),
    }
}

/// The UTF-8 bytes of a text (`String::into_bytes`).
pub fn chars_bytes(v: &Vec<char>) -> (r: Vec<u8>)
    ensures
        r@ == encode_utf8(v@),
{
    let s = string_of(v);
    s.as_str().as_bytes_vec()
}

/// A payload's bytes read back as text.
pub proof fn lemma_payload_text(t: Seq<char>)
    ensures
        valid_utf8(encode_utf8(t)),
        decode_utf8(encode_utf8(t)) == t,
{
}

/// `text.split_once('|')` on `a|b` when `a` holds no `|`.
pub proof fn lemma_split_once_joined(a: Seq<char>, b: Seq<char>, c: char)
    requires
        !a.contains(c),
    ensures
        split_once(a.push(c) + b, c) == Some((a, b)),
{
    lemma_find_char_joined(a, c, b);
    let s = a.push(c) + b;
    assert(s.take(a.len() as int) == a);
    assert(s.skip(a.len() as int + 1) == b);
}

/// `parse_usize(parts.next())` on the `i`-th piece.
pub open spec fn usize_field(ps: Seq<Seq<char>>, i: int) -> Result<usize, BridgeError> {
    if 0 <= i < ps.len() {
        match parse_usize_spec(ps[i]) {
            Some(n) => Ok(n),
            None => Err(BridgeError::InvalidId),
        }
    } else {
        Err(BridgeError::MissingValue)
    }
}

/// `parts.next().ok_or("MISSING_VALUE")` on the `i`-th piece.
pub open spec fn text_field(ps: Seq<Seq<char>>, i: int) -> Result<Seq<char>, BridgeError> {
    if 0 <= i < ps.len() {
        Ok(ps[i])
    } else {
        Err(BridgeError::MissingValue)
    }
}

pub(crate) fn usize_at(ps: &Vec<Vec<char>>, i: usize) -> (r: Result<usize, BridgeError>)
    ensures
        r == usize_field(views(ps@), i as int),
{
    if i < ps.len() {
        match parse_usize_chars(&ps[i]) {
            Some(n) => Ok(n),
            None => Err(BridgeError::InvalidId),
        }
    } else {
        Err(BridgeError::MissingValue)
    }
}

pub(crate) fn text_at(ps: &Vec<Vec<char>>, i: usize) -> (r: Result<String, BridgeError>)
    ensures
        match r {
            Ok(s) => text_field(views(ps@), i as int) == Ok::<Seq<char>, BridgeError>(s@),
            Err(e) => text_field(views(ps@), i as int) == Err::<Seq<char>, BridgeError>(e),
        },
{
    if i < ps.len() {
        Ok(string_of(&ps[i]))
    } else {
        Err(BridgeError::MissingValue)
    }
}

/// `parse_usize`: a missing field is `MISSING_VALUE`, one that is not a
/// `usize` is `INVALID_ID`.
pub fn parse_usize(value: Option<&str>) -> (r: Result<usize, BridgeError>)
    ensures
        r == match value {
            None => Err(BridgeError::MissingValue),
            Some(v) => match parse_usize_spec(v@) {
                Some(n) => Ok(n),
                None => Err(BridgeError::InvalidId),
            },
        },
{
    match value {
        None => Err(BridgeError::MissingValue),
        Some(v) => match parse_usize_chars(&chars_of(v)) {
            Some(n) => Ok(n),
            None => Err(BridgeError::InvalidId),
        },
    }
}

/// `parse_u16`: a missing field is `MISSING_VALUE`, one that is not a
/// `u16` is the given error.
pub fn parse_u16(value: Option<&str>, error: BridgeError) -> (r: Result<u16, BridgeError>)
    ensures
        r == match value {
            None => Err(BridgeError::MissingValue),
            Some(v) => match crate::text::parse_u16_spec(v@) {
                Some(n) => Ok(n),
                None => Err(error),
            },
        },
{
    match value {
        None => Err(BridgeError::MissingValue),
        Some(v) => match crate::text::parse_u16_chars(&chars_of(v)) {
            Some(n) => Ok(n),
            None => Err(error),
        },
    }
}

/// The decimal text of an id followed by `|`.
pub(crate) fn id_prefix(id: usize) -> (r: Vec<char>)
    ensures
        r@ == decimal_text(id as nat).push('|'),
{
    let mut out: Vec<char> = Vec::new();
    push_decimal(&mut out, id as u128);
    out.push('|');
    out
}

/// The decimal text of an id is read back as that id.
pub proof fn lemma_id_text(id: usize)
    ensures
        parse_usize_spec(decimal_text(id as nat)) == Some(id),
        !decimal_text(id as nat).contains('|'),
{
    lemma_parse_decimal_text(id as nat, usize::MAX as nat);
    lemma_decimal_text_no(id as nat, '|');
}

/// A text result as characters.
pub open spec fn text_result(r: Result<String, BridgeError>) -> Result<Seq<char>, BridgeError> {
    match r {
        Ok(s) => Ok(s@),
        Err(e) => Err(e),
    }
}

// ---------------------------------------------------------------------------
// Entity names
// ---------------------------------------------------------------------------
/// A new name for a player or a staff member.
pub struct EntityNameValue {
    pub name: String,
}

/// The name that a requested name becomes: trimmed, not empty, at most 100
/// characters and without control characters.
pub open spec fn entity_name_check(value: Seq<char>) -> Result<Seq<char>, BridgeError> {
    let t = trimmed(value);
    if t.len() == 0 {
        Err(BridgeError::NameEmpty)
    } else if t.len() > 100 {
        Err(BridgeError::NameTooLong)
    } else if exists|i: int| 0 <= i < t.len() && is_control_char(#[trigger] t[i]) {
        Err(BridgeError::NameControlCharacter)
    } else {
        Ok(t)
    }
}

/// Checks a requested name and returns it trimmed.
pub fn validate_entity_name(value: &str) -> (r: Result<String, BridgeError>)
    ensures
        text_result(r) == entity_name_check(value@),
{
    let v = chars_of(value);
    let t = trim_chars(&v);
    if t.len() == 0 {
        return Err(BridgeError::NameEmpty);
    }
    if t.len() > 100 {
        return Err(BridgeError::NameTooLong);
    }
    let mut i: usize = 0;
    while i < t.len()
        invariant
            i <= t.len(),
            0 < t.len() <= 100,
            t@ == trimmed(value@),
            forall|k: int| 0 <= k < i ==> !is_control_char(#[trigger] t@[k]),
        decreases t.len() - i,
    {
        if crate::text::control_char(t[i]) {
            proof {
                let tt = trimmed(value@);
                assert(tt == t@);
                assert(is_control_char(tt[i as int]));
                assert(exists|k: int| 0 <= k < tt.len() && is_control_char(#[trigger] tt[k]));
            }
            return Err(BridgeError::NameControlCharacter);
        }
        i += 1;
    }
    Ok(string_of(&t))
}

/// `"{entity_id}|{hex name}"`.
pub open spec fn entity_name_text(entity_id: usize, name: Seq<char>) -> Seq<char> {
    decimal_text(entity_id as nat).push('|') + hex_text(name)
}

/// The payload of a name change.
pub fn entity_name_payload(entity_id: usize, values: &EntityNameValue) -> (r: Vec<u8>)
    ensures
        r@ == encode_utf8(entity_name_text(entity_id, values.name@)),
{
    let mut s = string_of(&id_prefix(entity_id));
    hex_encode_into(&mut s, values.name.as_str());
    s.as_str().as_bytes_vec()
}

/// What the server reads from a name-change payload.
pub open spec fn entity_name_parsed(payload: Seq<u8>) -> Result<(usize, Seq<char>), BridgeError> {
    if !valid_utf8(payload) {
        Err(BridgeError::InvalidPayload)
    } else {
        match split_once(decode_utf8(payload), '|') {
            None => Err(BridgeError::MissingValue),
            Some((id, encoded)) => match hex_decoded(encoded) {
                Err(e) => Err(e),
                Ok(name) => match entity_name_check(name) {
                    Err(e) => Err(e),
                    Ok(n) => match parse_usize_spec(id) {
                        None => Err(BridgeError::InvalidId),
                        Some(i) => Ok((i, n)),
                    },
                },
            },
        }
    }
}

/// Reads a name-change payload.
pub fn parse_server_entity_name(payload: &[u8]) -> (r: Result<(usize, EntityNameValue), BridgeError>)
    ensures
        match r {
            Ok((i, v)) => entity_name_parsed(payload@) == Ok::<(usize, Seq<char>), BridgeError>(
                (i, v.name@),
            ),
            Err(e) => entity_name_parsed(payload@) == Err::<(usize, Seq<char>), BridgeError>(e),
        },
{
    let text = payload_chars(payload)?;
    let (id, encoded) = match split_once_chars(&text, '|') {
        Some(p) => p,
        None => return Err(BridgeError::MissingValue),
    };
    let decoded = hex_decode(string_of(&encoded).as_str())?;
    let name = validate_entity_name(decoded.as_str())?;
    match parse_usize_chars(&id) {
        Some(entity_id) => Ok((entity_id, EntityNameValue { name })),
        None => Err(BridgeError::InvalidId),
    }
}

/// A valid name sent in a name-change payload is read back unchanged.
pub proof fn lemma_entity_name_round_trip(entity_id: usize, name: Seq<char>)
    requires
        entity_name_check(name) == Ok::<Seq<char>, BridgeError>(name),
    ensures
        entity_name_parsed(encode_utf8(entity_name_text(entity_id, name))) == Ok::<
            (usize, Seq<char>),
            BridgeError,
        >((entity_id, name)),
{
    let t = entity_name_text(entity_id, name);
    lemma_payload_text(t);
    lemma_id_text(entity_id);
    lemma_split_once_joined(decimal_text(entity_id as nat), hex_text(name), '|');
    lemma_hex_round_trip(name);
}

// ---------------------------------------------------------------------------
// Contract dates
// ---------------------------------------------------------------------------
/// `YYYY-MM-DD`: ten characters, hyphens at 4 and 7 and digits elsewhere.
pub open spec fn is_date_text(t: Seq<char>) -> bool {
    &&& t.len() == 10
    &&& t[4] == '-'
    &&& t[7] == '-'
    &&& forall|i: int| 0 <= i < 10 && i != 4 && i != 7 ==> is_digit(#[trigger] t[i])
}

/// A contract date as the editor sends it: trimmed, then `YYYY-MM-DD`.
pub open spec fn date_check(value: Seq<char>) -> Result<Seq<char>, BridgeError> {
    let t = trimmed(value);
    if is_date_text(t) {
        Ok(t)
    } else {
        Err(BridgeError::InvalidContractDate)
    }
}

/// Checks a `YYYY-MM-DD` date and returns it trimmed.
pub fn validate_contract_end_date_text(value: &str) -> (r: Result<&str, BridgeError>)
    ensures
        r matches Ok(s) ==> date_check(value@) == Ok::<Seq<char>, BridgeError>(s@),
        r matches Err(e) ==> date_check(value@) == Err::<Seq<char>, BridgeError>(e),
{
    let v = chars_of(value);
    let (a, b) = trim_bounds(&v);
    let ghost t = trimmed(value@);
    assert(t == v@.subrange(a as int, b as int));
    if b - a != 10 {
        return Err(BridgeError::InvalidContractDate);
    }
    if v[a + 4] != '-' || v[a + 7] != '-' {
        assert(t[4] == v@[a + 4] && t[7] == v@[a + 7]);
        return Err(BridgeError::InvalidContractDate);
    }
    let mut i: usize = 0;
    while i < 10
        invariant
            i <= 10,
            b - a == 10,
            b <= v.len(),
            t == trimmed(value@),
            t == v@.subrange(a as int, b as int),
            forall|k: int| 0 <= k < i && k != 4 && k != 7 ==> is_digit(#[trigger] t[k]),
        decreases 10 - i,
    {
        if i != 4 && i != 7 && !crate::text::ascii_digit(v[a + i]) {
            assert(!is_digit(t[i as int]));
            return Err(BridgeError::InvalidContractDate);
        }
        i += 1;
    }
    Ok(value.substring_char(a, b))
}

/// `validate_contract_dates`: both dates valid, the end not before the start.
pub open spec fn contract_dates_check(start: Seq<char>, end: Seq<char>) -> Result<(), BridgeError> {
    match date_check(start) {
        Err(e) => Err(e),
        Ok(s) => match date_check(end) {
            Err(e) => Err(e),
            Ok(t) => if lex_lt(t, s) {
                Err(BridgeError::ContractEndBeforeStart)
            } else {
                Ok(())
            },
        },
    }
}

/// Checks a contract's start and end dates.
pub fn validate_contract_dates(start_date: &str, end_date: &str) -> (r: Result<(), BridgeError>)
    ensures
        r == contract_dates_check(start_date@, end_date@),
{
    let s = validate_contract_end_date_text(start_date)?;
    let e = validate_contract_end_date_text(end_date)?;
    if text_less(&chars_of(e), &chars_of(s)) {
        return Err(BridgeError::ContractEndBeforeStart);
    }
    Ok(())
}

/// A date with a time of day appended, when the date is valid.
pub open spec fn dated_text(value: Seq<char>, time: Seq<char>) -> Result<Seq<char>, BridgeError> {
    match date_check(value) {
        Ok(t) => Ok(t + time),
        Err(e) => Err(e),
    }
}

/// The start of a contract: the date at midnight.
pub fn contract_start_text(value: &str) -> (r: Result<String, BridgeError>)
    ensures
        text_result(r) == dated_text(value@, "T00:00:00"@),
{
    let date = validate_contract_end_date_text(value)?;
    let mut out = chars_of(date);
    extend_str(&mut out, "T00:00:00");
    Ok(string_of(&out))
}

/// The end of a contract: the date at the last second of the day.
pub fn contract_end_text(value: &str) -> (r: Result<String, BridgeError>)
    ensures
        text_result(r) == dated_text(value@, "T23:59:59"@),
{
    let date = validate_contract_end_date_text(value)?;
    let mut out = chars_of(date);
    extend_str(&mut out, "T23:59:59");
    Ok(string_of(&out))
}

/// A valid date has no white space at its ends and no `|`.
pub proof fn lemma_date_text(t: Seq<char>)
    requires
        is_date_text(t),
    ensures
        date_check(t) == Ok::<Seq<char>, BridgeError>(t),
        !t.contains('|'),
{
    assert(is_digit(t[0]) && is_digit(t[9]));
    crate::text::lemma_trimmed_unchanged(t);
    if t.contains('|') {
        let k = choose|k: int| 0 <= k < t.len() && t[k] == '|';
        assert(t[k] == '|');
    }
}

// ---------------------------------------------------------------------------
// Contract end payloads
// ---------------------------------------------------------------------------
/// A new contract end date for a staff member.
pub struct StaffContractEndValue {
    pub end_date: String,
}

/// A new contract end date for a player.
pub struct PlayerContractEndValue {
    pub end_date: String,
}

/// `"{id}|{field}"`.
pub open spec fn id_field_text(id: usize, field: Seq<char>) -> Seq<char> {
    decimal_text(id as nat).push('|') + field
}

pub(crate) fn id_field_payload(id: usize, field: &str) -> (r: Vec<u8>)
    ensures
        r@ == encode_utf8(id_field_text(id, field@)),
{
    let mut out = id_prefix(id);
    extend_str(&mut out, field);
    chars_bytes(&out)
}

/// The payload of a staff contract end change.
pub fn staff_contract_end_payload(staff_id: usize, values: &StaffContractEndValue) -> (r: Vec<u8>)
    ensures
        r@ == encode_utf8(id_field_text(staff_id, values.end_date@)),
{
    id_field_payload(staff_id, values.end_date.as_str())
}

/// The payload of a player contract end change.
pub fn player_contract_end_payload(athlete_id: usize, values: &PlayerContractEndValue) -> (r: Vec<u8>)
    ensures
        r@ == encode_utf8(id_field_text(athlete_id, values.end_date@)),
{
    id_field_payload(athlete_id, values.end_date.as_str())
}

/// What the server reads from a contract end payload: the id and the date
/// field as sent.
pub open spec fn contract_end_parsed(payload: Seq<u8>) -> Result<(usize, Seq<char>), BridgeError> {
    if !valid_utf8(payload) {
        Err(BridgeError::InvalidPayload)
    } else {
        let ps = split_pieces(decode_utf8(payload), '|');
        match usize_field(ps, 0) {
            Err(e) => Err(e),
            Ok(id) => match text_field(ps, 1) {
                Err(e) => Err(e),
                Ok(d) => match date_check(d) {
                    Err(e) => Err(e),
                    Ok(_) => Ok((id, d)),
                },
            },
        }
    }
}

fn parse_contract_end(payload: &[u8]) -> (r: Result<(usize, String), BridgeError>)
    ensures
        match r {
            Ok((i, d)) => contract_end_parsed(payload@) == Ok::<(usize, Seq<char>), BridgeError>(
                (i, d@),
            ),
            Err(e) => contract_end_parsed(payload@) == Err::<(usize, Seq<char>), BridgeError>(e),
        },
{
    let text = payload_chars(payload)?;
    let parts = split_chars(&text, '|');
    let id = usize_at(&parts, 0)?;
    let end_date = text_at(&parts, 1)?;
    validate_contract_end_date_text(end_date.as_str())?;
    Ok((id, end_date))
}

/// Reads a staff contract end payload.
pub fn parse_server_staff_contract_end(payload: &[u8]) -> (r: Result<(usize, StaffContractEndValue), BridgeError>)
    ensures
        match r {
            Ok((i, v)) => contract_end_parsed(payload@) == Ok::<(usize, Seq<char>), BridgeError>(
                (i, v.end_date@),
            ),
            Err(e) => contract_end_parsed(payload@) == Err::<(usize, Seq<char>), BridgeError>(e),
        },
{
    let (id, end_date) = parse_contract_end(payload)?;
    Ok((id, StaffContractEndValue { end_date }))
}

/// Reads a player contract end payload.
pub fn parse_server_player_contract_end(payload: &[u8]) -> (r: Result<(usize, PlayerContractEndValue), BridgeError>)
    ensures
        match r {
            Ok((i, v)) => contract_end_parsed(payload@) == Ok::<(usize, Seq<char>), BridgeError>(
                (i, v.end_date@),
            ),
            Err(e) => contract_end_parsed(payload@) == Err::<(usize, Seq<char>), BridgeError>(e),
        },
{
    let (id, end_date) = parse_contract_end(payload)?;
    Ok((id, PlayerContractEndValue { end_date }))
}

/// `split('|')` on `"{id}|{field}"` when the field holds no `|`.
pub proof fn lemma_id_field_pieces(id: usize, field: Seq<char>)
    requires
        !field.contains('|'),
    ensures
        split_pieces(id_field_text(id, field), '|') == seq![decimal_text(id as nat), field],
{
    lemma_id_text(id);
    crate::text::lemma_split_pieces_concat(decimal_text(id as nat), '|', field);
    crate::text::lemma_split_pieces_single(decimal_text(id as nat), '|');
    crate::text::lemma_split_pieces_single(field, '|');
}

/// A valid date sent in a contract end payload is read back unchanged.
pub proof fn lemma_contract_end_round_trip(id: usize, date: Seq<char>)
    requires
        is_date_text(date),
    ensures
        contract_end_parsed(encode_utf8(id_field_text(id, date))) == Ok::<
            (usize, Seq<char>),
            BridgeError,
        >((id, date)),
{
    lemma_date_text(date);
    lemma_payload_text(id_field_text(id, date));
    lemma_id_field_pieces(id, date);
    lemma_id_text(id);
}

// ---------------------------------------------------------------------------
// Staff communication levels
// ---------------------------------------------------------------------------
/// A staff member's communication level per region.
pub struct StaffCommunicationValues {
    pub entries: Vec<(usize, u16)>,
}

/// The first problem among the entries from index `i` on: a region seen
/// before, or a level above 100.
pub open spec fn communication_issue(es: Seq<(usize, u16)>, i: int) -> Option<BridgeError>
    decreases es.len() - i,
{
    if i < 0 || i >= es.len() {
        None
    } else if exists|j: int| 0 <= j < i && (#[trigger] es[j]).0 == es[i].0 {
        Some(BridgeError::DuplicateRegion)
    } else if es[i].1 > 100 {
        Some(BridgeError::CommunicationOutOfRange)
    } else {
        communication_issue(es, i + 1)
    }
}

/// `validate_staff_communication`.
pub open spec fn communication_check(es: Seq<(usize, u16)>) -> Result<(), BridgeError> {
    if es.len() == 0 {
        Err(BridgeError::NoCommunicationRegions)
    } else {
        match communication_issue(es, 0) {
            Some(e) => Err(e),
            None => Ok(()),
        }
    }
}

/// Checks a list of communication levels: at least one, no region twice,
/// every level at most 100.
pub fn validate_staff_communication(values: &StaffCommunicationValues) -> (r: Result<(), BridgeError>)
    ensures
        r == communication_check(values.entries@),
{
    let es = &values.entries;
    if es.len() == 0 {
        return Err(BridgeError::NoCommunicationRegions);
    }
    let mut i: usize = 0;
    while i < es.len()
        invariant
            i <= es.len(),
            es.len() > 0,
            es@ == values.entries@,
            communication_issue(es@, 0) == communication_issue(es@, i as int),
        decreases es.len() - i,
    {
        let mut j: usize = 0;
        while j < i
            invariant
                j <= i < es.len(),
                es@ == values.entries@,
                communication_issue(es@, 0) == communication_issue(es@, i as int),
                forall|k: int| 0 <= k < j ==> (#[trigger] es@[k]).0 != es@[i as int].0,
            decreases i - j,
        {
            if es[j].0 == es[i].0 {
                assert(es@[j as int].0 == es@[i as int].0);
                return Err(BridgeError::DuplicateRegion);
            }
            j += 1;
        }
        assert(!exists|k: int| 0 <= k < i && (#[trigger] es@[k]).0 == es@[i as int].0);
        if es[i].1 > 100 {
            return Err(BridgeError::CommunicationOutOfRange);
        }
        i += 1;
    }
    Ok(())
}

/// `"{region}={level}"`.
pub open spec fn communication_entry_text(e: (usize, u16)) -> Seq<char> {
    decimal_text(e.0 as nat).push('=') + decimal_text(e.1 as nat)
}

/// The entries as `region=level` joined with `;`.
pub open spec fn communication_text(es: Seq<(usize, u16)>) -> Seq<char> {
    join_pieces(es.map_values(|e: (usize, u16)| communication_entry_text(e)), ';')
}

/// The payload of a communication change: `"{staff_id}|{entries}"`.
pub fn staff_communication_payload(staff_id: usize, values: &StaffCommunicationValues) -> (r: Vec<u8>)
    ensures
        r@ == encode_utf8(id_field_text(staff_id, communication_text(values.entries@))),
{
    let es = &values.entries;
    let mut out = id_prefix(staff_id);
    let ghost head = out@;
    let mut k: usize = 0;
    while k < es.len()
        invariant
            k <= es.len(),
            out@ == head + communication_text(es@.take(k as int)),
        decreases es.len() - k,
    {
        let ghost before = es@.take(k as int);
        if k != 0 {
            out.push(';');
        }
        push_decimal(&mut out, es[k].0 as u128);
        out.push('=');
        push_decimal(&mut out, es[k].1 as u128);
        k += 1;
        proof {
            let now = es@.take(k as int);
            let f = |e: (usize, u16)| communication_entry_text(e);
            assert(now.drop_last() == before);
            assert(now.map_values(f).drop_last() =~= before.map_values(f));
            assert(now.map_values(f).last() == communication_entry_text(es@[k - 1]));
            if k == 1 {
                assert(now.map_values(f) =~= seq![communication_entry_text(es@[0])]);
            }
        }
    }
    assert(es@.take(es.len() as int) == es@);
    chars_bytes(&out)
}

/// Reads `region=level` pieces in order, skipping blank ones; the first
/// malformed piece decides the error.
pub open spec fn communication_entries(ps: Seq<Seq<char>>) -> Result<Seq<(usize, u16)>, BridgeError>
    decreases ps.len(),
{
    if ps.len() == 0 {
        Ok(Seq::empty())
    } else {
        match communication_entries(ps.drop_last()) {
            Err(e) => Err(e),
            Ok(es) => {
                let p = ps.last();
                if trimmed(p).len() == 0 {
                    Ok(es)
                } else {
                    match split_once(p, '=') {
                        None => Err(BridgeError::InvalidCommunication),
                        Some((r, v)) => match parse_usize_spec(r) {
                            None => Err(BridgeError::InvalidRegion),
                            Some(region) => match parse_u16_spec(v) {
                                None => Err(BridgeError::InvalidCommunication),
                                Some(level) => Ok(es.push((region, level))),
                            },
                        },
                    }
                }
            },
        }
    }
}

/// `parse_staff_communication_entries`.
pub open spec fn communication_parsed(raw: Seq<char>) -> Result<Seq<(usize, u16)>, BridgeError> {
    match communication_entries(split_pieces(raw, ';')) {
        Err(e) => Err(e),
        Ok(es) => match communication_check(es) {
            Err(e) => Err(e),
            Ok(_) => Ok(es),
        },
    }
}

/// An error in the first pieces is the error of the whole list.
pub proof fn lemma_communication_entries_prefix(ps: Seq<Seq<char>>, k: int)
    requires
        0 <= k <= ps.len(),
        communication_entries(ps.take(k)) is Err,
    ensures
        communication_entries(ps) == communication_entries(ps.take(k)),
    decreases ps.len(),
{
    if k < ps.len() {
        assert(ps.drop_last().take(k) == ps.take(k));
        lemma_communication_entries_prefix(ps.drop_last(), k);
    } else {
        assert(ps.take(k) == ps);
    }
}

/// Reads `region=level` entries separated by `;`.
pub fn parse_staff_communication_entries(raw: &str) -> (r: Result<StaffCommunicationValues, BridgeError>)
    ensures
        match r {
            Ok(v) => communication_parsed(raw@) == Ok::<Seq<(usize, u16)>, BridgeError>(
                v.entries@,
            ),
            Err(e) => communication_parsed(raw@) == Err::<Seq<(usize, u16)>, BridgeError>(e),
        },
{
    let pieces = split_chars(&chars_of(raw), ';');
    let ghost ps = views(pieces@);
    let mut entries: Vec<(usize, u16)> = Vec::new();
    let mut k: usize = 0;
    while k < pieces.len()
        invariant
            k <= pieces.len(),
            ps == views(pieces@),
            ps == split_pieces(raw@, ';'),
            communication_entries(ps.take(k as int)) == Ok::<Seq<(usize, u16)>, BridgeError>(
                entries@,
            ),
        decreases pieces.len() - k,
    {
        let p = &pieces[k];
        proof {
            assert(ps.take(k + 1).drop_last() == ps.take(k as int));
            assert(ps.take(k + 1).last() == p@);
        }
        if !crate::text::is_blank(p) {
            let (region_text, level_text) = match split_once_chars(p, '=') {
                Some(x) => x,
                None => {
                    proof {
                        lemma_communication_entries_prefix(ps, k + 1);
                    }
                    return Err(BridgeError::InvalidCommunication);
                },
            };
            let region = match parse_usize_chars(&region_text) {
                Some(n) => n,
                None => {
                    proof {
                        lemma_communication_entries_prefix(ps, k + 1);
                    }
                    return Err(BridgeError::InvalidRegion);
                },
            };
            let level = match crate::text::parse_u16_chars(&level_text) {
                Some(n) => n,
                None => {
                    proof {
                        lemma_communication_entries_prefix(ps, k + 1);
                    }
                    return Err(BridgeError::InvalidCommunication);
                },
            };
            entries.push((region, level));
        }
        k += 1;
    }
    assert(ps.take(pieces.len() as int) == ps);
    let values = StaffCommunicationValues { entries };
    validate_staff_communication(&values)?;
    Ok(values)
}

/// What the server reads from a communication payload.
pub open spec fn staff_communication_parsed(payload: Seq<u8>) -> Result<(usize, Seq<(usize, u16)>), BridgeError> {
    if !valid_utf8(payload) {
        Err(BridgeError::InvalidPayload)
    } else {
        match split_once(decode_utf8(payload), '|') {
            None => Err(BridgeError::MissingValue),
            Some((id, rest)) => match parse_usize_spec(id) {
                None => Err(BridgeError::InvalidId),
                Some(i) => match communication_parsed(rest) {
                    Err(e) => Err(e),
                    Ok(es) => Ok((i, es)),
                },
            },
        }
    }
}

/// Reads a communication payload.
pub fn parse_server_staff_communication(payload: &[u8]) -> (r: Result<(usize, StaffCommunicationValues), BridgeError>)
    ensures
        match r {
            Ok((i, v)) => staff_communication_parsed(payload@) == Ok::<
                (usize, Seq<(usize, u16)>),
                BridgeError,
            >((i, v.entries@)),
            Err(e) => staff_communication_parsed(payload@) == Err::<
                (usize, Seq<(usize, u16)>),
                BridgeError,
            >(e),
        },
{
    let text = payload_chars(payload)?;
    let (id, entries) = match split_once_chars(&text, '|') {
        Some(p) => p,
        None => return Err(BridgeError::MissingValue),
    };
    let staff_id = match parse_usize_chars(&id) {
        Some(n) => n,
        None => return Err(BridgeError::InvalidId),
    };
    let values = parse_staff_communication_entries(string_of(&entries).as_str())?;
    Ok((staff_id, values))
}

/// A decimal text starts and ends with a digit and holds no separator.
pub proof fn lemma_decimal_ends(n: nat)
    ensures
        decimal_text(n).len() > 0,
        is_digit(decimal_text(n)[0]),
        is_digit(decimal_text(n).last()),
        !decimal_text(n).contains('='),
        !decimal_text(n).contains(';'),
        !decimal_text(n).contains(':'),
        !decimal_text(n).contains(','),
{
    crate::text::lemma_decimal_text(n);
    let t = decimal_text(n);
    assert(is_digit(t[0]));
    assert(is_digit(t[t.len() - 1]));
    lemma_decimal_text_no(n, '=');
    lemma_decimal_text_no(n, ';');
    lemma_decimal_text_no(n, ':');
    lemma_decimal_text_no(n, ',');
}

/// Reading the text of each entry gives the entries back.
pub proof fn lemma_communication_entries_of_texts(es: Seq<(usize, u16)>)
    ensures
        communication_entries(es.map_values(|e: (usize, u16)| communication_entry_text(e))) == Ok::<
            Seq<(usize, u16)>,
            BridgeError,
        >(es),
    decreases es.len(),
{
    let f = |e: (usize, u16)| communication_entry_text(e);
    let ps = es.map_values(f);
    if es.len() > 0 {
        lemma_communication_entries_of_texts(es.drop_last());
        assert(ps.drop_last() =~= es.drop_last().map_values(f));
        let e = es.last();
        let a = decimal_text(e.0 as nat);
        let b = decimal_text(e.1 as nat);
        let p = a.push('=') + b;
        assert(ps.last() == p);
        lemma_decimal_ends(e.0 as nat);
        lemma_decimal_ends(e.1 as nat);
        assert(p[0] == a[0]);
        assert(p[p.len() - 1] == b.last());
        crate::text::lemma_trimmed_unchanged(p);
        lemma_split_once_joined(a, b, '=');
        lemma_parse_decimal_text(e.0 as nat, usize::MAX as nat);
        lemma_parse_decimal_text(e.1 as nat, u16::MAX as nat);
        assert(es.drop_last().push(e) == es);
    } else {
        assert(ps.len() == 0);
    }
}

/// Communication levels that pass the checks, sent in a payload, are read
/// back unchanged.
pub proof fn lemma_staff_communication_round_trip(staff_id: usize, es: Seq<(usize, u16)>)
    requires
        communication_check(es) == Ok::<(), BridgeError>(()),
    ensures
        staff_communication_parsed(
            encode_utf8(id_field_text(staff_id, communication_text(es))),
        ) == Ok::<(usize, Seq<(usize, u16)>), BridgeError>((staff_id, es)),
{
    let f = |e: (usize, u16)| communication_entry_text(e);
    let ps = es.map_values(f);
    lemma_payload_text(id_field_text(staff_id, communication_text(es)));
    lemma_id_text(staff_id);
    lemma_split_once_joined(decimal_text(staff_id as nat), communication_text(es), '|');
    assert forall|i: int| 0 <= i < ps.len() implies !(#[trigger] ps[i]).contains(';') by {
        let e = es[i];
        lemma_decimal_ends(e.0 as nat);
        lemma_decimal_ends(e.1 as nat);
        let a = decimal_text(e.0 as nat);
        let b = decimal_text(e.1 as nat);
        if ps[i].contains(';') {
            let k = choose|k: int| 0 <= k < ps[i].len() && ps[i][k] == ';';
            if k < a.len() {
                assert(a[k] == ';');
            } else if k > a.len() {
                assert(b[k - a.len() - 1] == ';');
            }
        }
    }
    crate::text::lemma_split_join(ps, ';');
    lemma_communication_entries_of_texts(es);
}

} // verus!
