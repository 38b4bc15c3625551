//! Player edit payloads: champion mastery, positions, potential and
//! communication levels, each with the checks that the game's values need.

use vstd::prelude::*;
use vstd::utf8::{decode_utf8, encode_utf8, valid_utf8};
use crate::error::BridgeError;
use crate::text::{
    chars_of, decimal_text, is_digit, join_pieces, lemma_parse_decimal_text, parse_u16_chars,
    parse_u16_spec, parse_usize_chars, parse_usize_spec, push_decimal, split_chars, split_once,
    split_once_chars, split_pieces, string_of, trimmed, views,
};
use crate::wire::{
    chars_bytes, id_prefix, lemma_decimal_ends, lemma_id_text, lemma_payload_text,
    lemma_split_once_joined, payload_chars, usize_at, usize_field,
};

verus! {

broadcast use {vstd::seq_lib::group_seq_properties, vstd::utf8::group_utf8_lib};

/// `parse_u16(parts.next(), error)` on the `i`-th piece.
pub open spec fn u16_field(ps: Seq<Seq<char>>, i: int, error: BridgeError) -> Result<u16, BridgeError> {
    if 0 <= i < ps.len() {
        match parse_u16_spec(ps[i]) {
            Some(n) => Ok(n),
            None => Err(error),
        }
    } else {
        Err(BridgeError::MissingValue)
    }
}

pub(crate) fn u16_at(ps: &Vec<Vec<char>>, i: usize, error: BridgeError) -> (r: Result<u16, BridgeError>)
    ensures
        r == u16_field(views(ps@), i as int, error),
{
    if i < ps.len() {
        match parse_u16_chars(&ps[i]) {
            Some(n) => Ok(n),
            None => Err(error),
        }
    } else {
        Err(BridgeError::MissingValue)
    }
}

/// Numbers joined with a separator, each in decimal.
pub open spec fn numbers_text(ns: Seq<nat>, sep: char) -> Seq<char> {
    join_pieces(ns.map_values(|n: nat| decimal_text(n)), sep)
}

/// Splitting the decimal texts of numbers joined with a separator that is
/// not a digit gives those texts back.
pub proof fn lemma_numbers_pieces(ns: Seq<nat>, sep: char)
    requires
        ns.len() >= 1,
        !is_digit(sep),
    ensures
        split_pieces(numbers_text(ns, sep), sep) == ns.map_values(|n: nat| decimal_text(n)),
{
    let ps = ns.map_values(|n: nat| decimal_text(n));
    assert forall|i: int| 0 <= i < ps.len() implies !(#[trigger] ps[i]).contains(sep) by {
        crate::text::lemma_decimal_text_no(ns[i], sep);
    }
    crate::text::lemma_split_join(ps, sep);
}

// ---------------------------------------------------------------------------
// Positions
// ---------------------------------------------------------------------------
/// A player's proficiency in each role; 0 means the role is absent.
#[derive(Clone, Copy, Debug)]
pub struct PlayerPositionValues {
    pub top: u16,
    pub jungle: u16,
    pub mid: u16,
    pub bottom: u16,
    pub support: u16,
}

/// The five proficiencies in role order.
pub open spec fn position_list(v: PlayerPositionValues) -> Seq<u16> {
    seq![v.top, v.jungle, v.mid, v.bottom, v.support]
}

/// How many of the proficiencies are above zero.
pub open spec fn roles_taken(s: Seq<u16>) -> nat
    decreases s.len(),
{
    if s.len() == 0 {
        0
    } else {
        roles_taken(s.drop_last()) + if s.last() > 0 {
            1nat
        } else {
            0nat
        }
    }
}

/// `validate_player_positions`: every proficiency at most 100, at most
/// three roles.
pub open spec fn positions_check(v: PlayerPositionValues) -> Result<(), BridgeError> {
    let s = position_list(v);
    if exists|i: int| 0 <= i < 5 && #[trigger] s[i] > 100 {
        Err(BridgeError::PositionOutOfRange)
    } else if roles_taken(s) > 3 {
        Err(BridgeError::TooManyPositions)
    } else {
        Ok(())
    }
}

/// A proficiency is at most 100.
pub fn validate_position_value(value: u16) -> (r: Result<(), BridgeError>)
    ensures
        r == (if value > 100 {
            Err(BridgeError::PositionOutOfRange)
        } else {
            Ok(())
        }),
{
    if value > 100 {
        return Err(BridgeError::PositionOutOfRange);
    }
    Ok(())
}

/// Checks a player's proficiencies.
pub fn validate_player_positions(values: &PlayerPositionValues) -> (r: Result<(), BridgeError>)
    ensures
        r == positions_check(*values),
{
    let ghost s = position_list(*values);
    proof {
        reveal_with_fuel(roles_taken, 6);
        assert(s[0] == values.top && s[1] == values.jungle && s[2] == values.mid && s[3]
            == values.bottom && s[4] == values.support);
        assert(s.drop_last() =~= seq![values.top, values.jungle, values.mid, values.bottom]);
        assert(s.drop_last().drop_last() =~= seq![values.top, values.jungle, values.mid]);
        assert(s.drop_last().drop_last().drop_last() =~= seq![values.top, values.jungle]);
        assert(s.drop_last().drop_last().drop_last().drop_last() =~= seq![values.top]);
        assert(seq![values.top].drop_last() =~= Seq::<u16>::empty());
    }
    validate_position_value(values.top)?;
    validate_position_value(values.jungle)?;
    validate_position_value(values.mid)?;
    validate_position_value(values.bottom)?;
    validate_position_value(values.support)?;
    let mut taken: u8 = 0;
    if values.top > 0 {
        taken += 1;
    }
    if values.jungle > 0 {
        taken += 1;
    }
    if values.mid > 0 {
        taken += 1;
    }
    if values.bottom > 0 {
        taken += 1;
    }
    if values.support > 0 {
        taken += 1;
    }
    assert(taken == roles_taken(s));
    if taken > 3 {
        return Err(BridgeError::TooManyPositions);
    }
    Ok(())
}

/// The proficiencies as numbers, in role order.
pub open spec fn position_numbers(v: PlayerPositionValues) -> Seq<nat> {
    seq![v.top as nat, v.jungle as nat, v.mid as nat, v.bottom as nat, v.support as nat]
}

/// The payload of a position change: the id and the five proficiencies.
pub fn player_positions_payload(athlete_id: usize, values: PlayerPositionValues) -> (r: Vec<u8>)
    ensures
        r@ == encode_utf8(numbers_text(seq![athlete_id as nat] + position_numbers(values), '|')),
{
    let mut out: Vec<char> = Vec::new();
    push_decimal(&mut out, athlete_id as u128);
    out.push('|');
    push_decimal(&mut out, values.top as u128);
    out.push('|');
    push_decimal(&mut out, values.jungle as u128);
    out.push('|');
    push_decimal(&mut out, values.mid as u128);
    out.push('|');
    push_decimal(&mut out, values.bottom as u128);
    out.push('|');
    push_decimal(&mut out, values.support as u128);
    proof {
        let ns = seq![athlete_id as nat] + position_numbers(values);
        let f = |n: nat| decimal_text(n);
        let ps = ns.map_values(f);
        reveal_with_fuel(join_pieces, 7);
        assert(ps.drop_last().drop_last().drop_last().drop_last().drop_last() =~= seq![
            decimal_text(athlete_id as nat),
        ]);
        assert(out@ =~= numbers_text(ns, '|'));
    }
    chars_bytes(&out)
}

/// What the server reads from a position payload.
pub open spec fn positions_parsed(payload: Seq<u8>) -> Result<(usize, PlayerPositionValues), BridgeError> {
    if !valid_utf8(payload) {
        Err(BridgeError::InvalidPayload)
    } else {
        let ps = split_pieces(decode_utf8(payload), '|');
        match usize_field(ps, 0) {
            Err(e) => Err(e),
            Ok(id) => match u16_field(ps, 1, BridgeError::InvalidPosition) {
                Err(e) => Err(e),
                Ok(top) => match u16_field(ps, 2, BridgeError::InvalidPosition) {
                    Err(e) => Err(e),
                    Ok(jungle) => match u16_field(ps, 3, BridgeError::InvalidPosition) {
                        Err(e) => Err(e),
                        Ok(mid) => match u16_field(ps, 4, BridgeError::InvalidPosition) {
                            Err(e) => Err(e),
                            Ok(bottom) => match u16_field(ps, 5, BridgeError::InvalidPosition) {
                                Err(e) => Err(e),
                                Ok(support) => {
                                    let v = PlayerPositionValues { top, jungle, mid, bottom, support };
                                    match positions_check(v) {
                                        Err(e) => Err(e),
                                        Ok(_) => Ok((id, v)),
                                    }
                                },
                            },
                        },
                    },
                },
            },
        }
    }
}

/// Reads a position payload.
pub fn parse_server_player_positions(payload: &[u8]) -> (r: Result<(usize, PlayerPositionValues), BridgeError>)
    ensures
        r == positions_parsed(payload@),
{
    let text = payload_chars(payload)?;
    let parts = split_chars(&text, '|');
    let athlete_id = usize_at(&parts, 0)?;
    let top = u16_at(&parts, 1, BridgeError::InvalidPosition)?;
    let jungle = u16_at(&parts, 2, BridgeError::InvalidPosition)?;
    let mid = u16_at(&parts, 3, BridgeError::InvalidPosition)?;
    let bottom = u16_at(&parts, 4, BridgeError::InvalidPosition)?;
    let support = u16_at(&parts, 5, BridgeError::InvalidPosition)?;
    let values = PlayerPositionValues { top, jungle, mid, bottom, support };
    validate_player_positions(&values)?;
    Ok((athlete_id, values))
}

/// Proficiencies that pass the checks, sent in a position payload, are read
/// back unchanged.
pub proof fn lemma_positions_round_trip(athlete_id: usize, v: PlayerPositionValues)
    requires
        positions_check(v) == Ok::<(), BridgeError>(()),
    ensures
        positions_parsed(
            encode_utf8(numbers_text(seq![athlete_id as nat] + position_numbers(v), '|')),
        ) == Ok::<(usize, PlayerPositionValues), BridgeError>((athlete_id, v)),
{
    let ns = seq![athlete_id as nat] + position_numbers(v);
    let t = numbers_text(ns, '|');
    lemma_payload_text(t);
    lemma_numbers_pieces(ns, '|');
    let ps = split_pieces(t, '|');
    assert(ps.len() == 6);
    assert(ps[0] == decimal_text(athlete_id as nat));
    assert(ps[1] == decimal_text(v.top as nat));
    assert(ps[2] == decimal_text(v.jungle as nat));
    assert(ps[3] == decimal_text(v.mid as nat));
    assert(ps[4] == decimal_text(v.bottom as nat));
    assert(ps[5] == decimal_text(v.support as nat));
    lemma_id_text(athlete_id);
    lemma_parse_decimal_text(v.top as nat, u16::MAX as nat);
    lemma_parse_decimal_text(v.jungle as nat, u16::MAX as nat);
    lemma_parse_decimal_text(v.mid as nat, u16::MAX as nat);
    lemma_parse_decimal_text(v.bottom as nat, u16::MAX as nat);
    lemma_parse_decimal_text(v.support as nat, u16::MAX as nat);
    assert(usize_field(ps, 0) == Ok::<usize, BridgeError>(athlete_id));
    assert(u16_field(ps, 1, BridgeError::InvalidPosition) == Ok::<u16, BridgeError>(v.top));
    assert(u16_field(ps, 2, BridgeError::InvalidPosition) == Ok::<u16, BridgeError>(v.jungle));
    assert(u16_field(ps, 3, BridgeError::InvalidPosition) == Ok::<u16, BridgeError>(v.mid));
    assert(u16_field(ps, 4, BridgeError::InvalidPosition) == Ok::<u16, BridgeError>(v.bottom));
    assert(u16_field(ps, 5, BridgeError::InvalidPosition) == Ok::<u16, BridgeError>(v.support));
    let w = PlayerPositionValues {
        top: v.top,
        jungle: v.jungle,
        mid: v.mid,
        bottom: v.bottom,
        support: v.support,
    };
    assert(w == v);
}

// ---------------------------------------------------------------------------
// Potential
// ---------------------------------------------------------------------------
/// A player's hidden potential.
#[derive(Clone, Copy, Debug)]
pub struct PlayerPotentialValue {
    pub potential: u16,
}

/// A potential is between 1 and 100.
pub open spec fn potential_check(v: PlayerPotentialValue) -> Result<(), BridgeError> {
    if 1 <= v.potential <= 100 {
        Ok(())
    } else {
        Err(BridgeError::PotentialOutOfRange)
    }
}

/// Checks a potential.
pub fn validate_player_potential(values: PlayerPotentialValue) -> (r: Result<(), BridgeError>)
    ensures
        r == potential_check(values),
{
    if !(1 <= values.potential && values.potential <= 100) {
        return Err(BridgeError::PotentialOutOfRange);
    }
    Ok(())
}

/// The payload of a potential change: `"{athlete_id}|{potential}"`.
pub fn player_potential_payload(athlete_id: usize, values: PlayerPotentialValue) -> (r: Vec<u8>)
    ensures
        r@ == encode_utf8(numbers_text(seq![athlete_id as nat, values.potential as nat], '|')),
{
    let mut out = id_prefix(athlete_id);
    push_decimal(&mut out, values.potential as u128);
    proof {
        reveal_with_fuel(join_pieces, 3);
        let ns = seq![athlete_id as nat, values.potential as nat];
        let ps = ns.map_values(|n: nat| decimal_text(n));
        assert(ps.drop_last() =~= seq![decimal_text(athlete_id as nat)]);
        assert(out@ =~= numbers_text(ns, '|'));
    }
    chars_bytes(&out)
}

/// What the server reads from a potential payload.
pub open spec fn potential_parsed(payload: Seq<u8>) -> Result<(usize, PlayerPotentialValue), BridgeError> {
    if !valid_utf8(payload) {
        Err(BridgeError::InvalidPayload)
    } else {
        let ps = split_pieces(decode_utf8(payload), '|');
        match usize_field(ps, 0) {
            Err(e) => Err(e),
            Ok(id) => match u16_field(ps, 1, BridgeError::InvalidPotential) {
                Err(e) => Err(e),
                Ok(p) => {
                    let v = PlayerPotentialValue { potential: p };
                    match potential_check(v) {
                        Err(e) => Err(e),
                        Ok(_) => Ok((id, v)),
                    }
                },
            },
        }
    }
}

/// Reads a potential payload.
pub fn parse_server_player_potential(payload: &[u8]) -> (r: Result<(usize, PlayerPotentialValue), BridgeError>)
    ensures
        r == potential_parsed(payload@),
{
    let text = payload_chars(payload)?;
    let parts = split_chars(&text, '|');
    let athlete_id = usize_at(&parts, 0)?;
    let potential = u16_at(&parts, 1, BridgeError::InvalidPotential)?;
    let values = PlayerPotentialValue { potential };
    validate_player_potential(values)?;
    Ok((athlete_id, values))
}

/// A potential between 1 and 100, sent in a payload, is read back unchanged.
pub proof fn lemma_potential_round_trip(athlete_id: usize, v: PlayerPotentialValue)
    requires
        potential_check(v) == Ok::<(), BridgeError>(()),
    ensures
        potential_parsed(encode_utf8(numbers_text(seq![athlete_id as nat, v.potential as nat], '|')))
            == Ok::<(usize, PlayerPotentialValue), BridgeError>((athlete_id, v)),
{
    let ns = seq![athlete_id as nat, v.potential as nat];
    let t = numbers_text(ns, '|');
    lemma_payload_text(t);
    lemma_numbers_pieces(ns, '|');
    let ps = split_pieces(t, '|');
    assert(ps.len() == 2);
    assert(ps[0] == decimal_text(athlete_id as nat));
    assert(ps[1] == decimal_text(v.potential as nat));
    lemma_id_text(athlete_id);
    lemma_parse_decimal_text(v.potential as nat, u16::MAX as nat);
    assert(usize_field(ps, 0) == Ok::<usize, BridgeError>(athlete_id));
    assert(u16_field(ps, 1, BridgeError::InvalidPotential) == Ok::<u16, BridgeError>(v.potential));
    let w = PlayerPotentialValue { potential: v.potential };
    assert(w == v);
}

// ---------------------------------------------------------------------------
// Communication
// ---------------------------------------------------------------------------
/// A player's communication level in one region; 0 removes the region.
#[derive(Clone, Copy, Debug)]
pub struct PlayerCommunicationValue {
    pub region_id: usize,
    pub level: usize,
}

/// A level is at most 100.
pub open spec fn player_communication_check(v: PlayerCommunicationValue) -> Result<(), BridgeError> {
    if v.level > 100 {
        Err(BridgeError::CommunicationOutOfRange)
    } else {
        Ok(())
    }
}

/// Checks a communication level.
pub fn validate_player_communication(values: PlayerCommunicationValue) -> (r: Result<(), BridgeError>)
    ensures
        r == player_communication_check(values),
{
    if values.level > 100 {
        return Err(BridgeError::CommunicationOutOfRange);
    }
    Ok(())
}

/// The payload of a communication change: `"{athlete_id}|{region}|{level}"`.
pub fn player_communication_payload(athlete_id: usize, values: PlayerCommunicationValue) -> (r: Vec<u8>)
    ensures
        r@ == encode_utf8(
            numbers_text(seq![athlete_id as nat, values.region_id as nat, values.level as nat], '|'),
        ),
{
    let mut out = id_prefix(athlete_id);
    push_decimal(&mut out, values.region_id as u128);
    out.push('|');
    push_decimal(&mut out, values.level as u128);
    proof {
        reveal_with_fuel(join_pieces, 4);
        let ns = seq![athlete_id as nat, values.region_id as nat, values.level as nat];
        let ps = ns.map_values(|n: nat| decimal_text(n));
        assert(ps.drop_last().drop_last() =~= seq![decimal_text(athlete_id as nat)]);
        assert(out@ =~= numbers_text(ns, '|'));
    }
    chars_bytes(&out)
}

/// What the server reads from a communication payload.
pub open spec fn player_communication_parsed(payload: Seq<u8>) -> Result<(usize, PlayerCommunicationValue), BridgeError> {
    if !valid_utf8(payload) {
        Err(BridgeError::InvalidPayload)
    } else {
        let ps = split_pieces(decode_utf8(payload), '|');
        match usize_field(ps, 0) {
            Err(e) => Err(e),
            Ok(id) => match usize_field(ps, 1) {
                Err(e) => Err(e),
                Ok(region) => if ps.len() <= 2 {
                    Err(BridgeError::MissingValue)
                } else {
                    match parse_usize_spec(ps[2]) {
                        None => Err(BridgeError::InvalidCommunication),
                        Some(level) => {
                            let v = PlayerCommunicationValue { region_id: region, level };
                            match player_communication_check(v) {
                                Err(e) => Err(e),
                                Ok(_) => Ok((id, v)),
                            }
                        },
                    }
                },
            },
        }
    }
}

/// Reads a communication payload.
pub fn parse_server_player_communication(payload: &[u8]) -> (r: Result<(usize, PlayerCommunicationValue), BridgeError>)
    ensures
        r == player_communication_parsed(payload@),
{
    let text = payload_chars(payload)?;
    let parts = split_chars(&text, '|');
    let athlete_id = usize_at(&parts, 0)?;
    let region_id = usize_at(&parts, 1)?;
    if parts.len() <= 2 {
        return Err(BridgeError::MissingValue);
    }
    let level = match parse_usize_chars(&parts[2]) {
        Some(n) => n,
        None => return Err(BridgeError::InvalidCommunication),
    };
    let values = PlayerCommunicationValue { region_id, level };
    validate_player_communication(values)?;
    Ok((athlete_id, values))
}

/// A level of at most 100, sent in a payload, is read back unchanged.
pub proof fn lemma_player_communication_round_trip(athlete_id: usize, v: PlayerCommunicationValue)
    requires
        player_communication_check(v) == Ok::<(), BridgeError>(()),
    ensures
        player_communication_parsed(
            encode_utf8(numbers_text(seq![athlete_id as nat, v.region_id as nat, v.level as nat], '|')),
        ) == Ok::<(usize, PlayerCommunicationValue), BridgeError>((athlete_id, v)),
{
    let ns = seq![athlete_id as nat, v.region_id as nat, v.level as nat];
    let t = numbers_text(ns, '|');
    lemma_payload_text(t);
    lemma_numbers_pieces(ns, '|');
    let ps = split_pieces(t, '|');
    assert(ps.len() == 3);
    assert(ps[0] == decimal_text(athlete_id as nat));
    assert(ps[1] == decimal_text(v.region_id as nat));
    assert(ps[2] == decimal_text(v.level as nat));
    lemma_id_text(athlete_id);
    lemma_id_text(v.region_id);
    lemma_id_text(v.level);
    assert(usize_field(ps, 0) == Ok::<usize, BridgeError>(athlete_id));
    assert(usize_field(ps, 1) == Ok::<usize, BridgeError>(v.region_id));
    let w = PlayerCommunicationValue { region_id: v.region_id, level: v.level };
    assert(w == v);
}

/// The payload that raises a player's communication to the maximum in the
/// given regions: `"{athlete_id}|{region},{region}..."`.
pub fn player_communication_max_payload(athlete_id: usize, region_ids: &[usize]) -> (r: Vec<u8>)
    ensures
        r@ == encode_utf8(
            decimal_text(athlete_id as nat).push('|') + numbers_text(
                region_ids@.map_values(|x: usize| x as nat),
                ',',
            ),
        ),
{
    let mut out = id_prefix(athlete_id);
    let ghost head = out@;
    let mut k: usize = 0;
    while k < region_ids.len()
        invariant
            k <= region_ids.len(),
            out@ == head + numbers_text(region_ids@.take(k as int).map_values(|x: usize| x as nat), ','),
        decreases region_ids.len() - k,
    {
        let ghost before = region_ids@.take(k as int).map_values(|x: usize| x as nat);
        if k != 0 {
            out.push(',');
        }
        push_decimal(&mut out, region_ids[k] as u128);
        k += 1;
        proof {
            let now = region_ids@.take(k as int).map_values(|x: usize| x as nat);
            let f = |n: nat| decimal_text(n);
            assert(now.drop_last() =~= before);
            assert(now.map_values(f).drop_last() =~= before.map_values(f));
            assert(now.map_values(f).last() == decimal_text(region_ids@[k - 1] as nat));
            if k == 1 {
                assert(now.map_values(f) =~= seq![decimal_text(region_ids@[0] as nat)]);
            }
        }
    }
    assert(region_ids@.take(region_ids.len() as int) == region_ids@);
    chars_bytes(&out)
}

/// The region ids on comma-separated pieces, in order; the first piece that
/// is not an id decides the error.
pub open spec fn region_ids_of(ps: Seq<Seq<char>>) -> Result<Seq<usize>, BridgeError>
    decreases ps.len(),
{
    if ps.len() == 0 {
        Ok(Seq::empty())
    } else {
        match region_ids_of(ps.drop_last()) {
            Err(e) => Err(e),
            Ok(ids) => match parse_usize_spec(ps.last()) {
                None => Err(BridgeError::InvalidId),
                Some(n) => Ok(ids.push(n)),
            },
        }
    }
}

pub proof fn lemma_region_ids_prefix(ps: Seq<Seq<char>>, k: int)
    requires
        0 <= k <= ps.len(),
        region_ids_of(ps.take(k)) is Err,
    ensures
        region_ids_of(ps) == region_ids_of(ps.take(k)),
    decreases ps.len(),
{
    if k < ps.len() {
        assert(ps.drop_last().take(k) == ps.take(k));
        lemma_region_ids_prefix(ps.drop_last(), k);
    } else {
        assert(ps.take(k) == ps);
    }
}

/// The ids listed after the `|`: none when that text is blank.
pub open spec fn listed_region_ids(rest: Seq<char>) -> Result<Seq<usize>, BridgeError> {
    if trimmed(rest).len() == 0 {
        Ok(Seq::empty())
    } else {
        region_ids_of(split_pieces(rest, ','))
    }
}

/// Strictly increasing.
pub open spec fn increasing(s: Seq<usize>) -> bool {
    forall|i: int, j: int| 0 <= i < j < s.len() ==> s[i] < s[j]
}

/// What the server reads from a maximum-communication payload: the id and
/// the listed regions, sorted, each once, at least one.
pub open spec fn communication_max_parsed(payload: Seq<u8>, id: usize, regions: Seq<usize>) -> bool {
    &&& valid_utf8(payload)
    &&& split_once(decode_utf8(payload), '|') matches Some((a, rest))
    &&& parse_usize_spec(a) == Some(id)
    &&& listed_region_ids(rest) matches Ok(ids)
    &&& regions.len() > 0
    &&& increasing(regions)
    &&& forall|x: usize| regions.contains(x) <==> ids.contains(x)
}

/// The error that a maximum-communication payload gives, if any.
pub open spec fn communication_max_error(payload: Seq<u8>) -> Option<BridgeError> {
    if !valid_utf8(payload) {
        Some(BridgeError::InvalidPayload)
    } else {
        match split_once(decode_utf8(payload), '|') {
            None => Some(BridgeError::MissingValue),
            Some((a, rest)) => match parse_usize_spec(a) {
                None => Some(BridgeError::InvalidId),
                Some(_) => match listed_region_ids(rest) {
                    Err(e) => Some(e),
                    Ok(ids) => if ids.len() == 0 {
                        Some(BridgeError::NoRegionsDetected)
                    } else {
                        None
                    },
                },
            },
        }
    }
}

/// Adds `n` to a strictly increasing vector, keeping it so.
fn insert_sorted(v: &mut Vec<usize>, n: usize)
    requires
        increasing(old(v)@),
    ensures
        increasing(final(v)@),
        forall|x: usize| final(v)@.contains(x) <==> (old(v)@.contains(x) || x == n),
{
    let mut j: usize = 0;
    while j < v.len() && v[j] < n
        invariant
            j <= v.len(),
            forall|i: int| 0 <= i < j ==> v@[i] < n,
        decreases v.len() - j,
    {
        j += 1;
    }
    if j < v.len() && v[j] == n {
        assert(v@.contains(n)) by {
            assert(v@[j as int] == n);
        }
        return;
    }
    let ghost before = v@;
    v.insert(j, n);
    proof {
        before.insert_ensures(j as int, n);
        assert(v@ == before.insert(j as int, n));
        assert forall|k: int| j < k < v@.len() implies v@[k] == before[k - 1] by {
            assert(before.insert(j as int, n)[(k - 1) + 1] == before[k - 1]);
        }
        assert forall|a: int, b: int| 0 <= a < b < v@.len() implies v@[a] < v@[b] by {
            if a < j && b == j {
            } else if a < j && b > j {
                assert(v@[b] == before[b - 1]);
                assert(before[a] < before[b - 1] || a == b - 1);
            } else if a == j {
                assert(v@[b] == before[b - 1]);
                assert(before[j as int] >= n);
                assert(before[j as int] != n);
                assert(j == b - 1 || before[j as int] < before[b - 1]);
            } else if a > j {
                assert(v@[a] == before[a - 1] && v@[b] == before[b - 1]);
            } else {
                assert(v@[a] == before[a] && v@[b] == before[b]);
            }
        }
        assert forall|x: usize| v@.contains(x) <==> (before.contains(x) || x == n) by {
            if v@.contains(x) {
                let i = choose|i: int| 0 <= i < v@.len() && v@[i] == x;
                if i < j {
                    assert(before[i] == x);
                } else if i > j {
                    assert(before[i - 1] == x);
                }
            }
            if before.contains(x) {
                let i = choose|i: int| 0 <= i < before.len() && before[i] == x;
                if i < j {
                    assert(v@[i] == x);
                } else {
                    assert(v@[i + 1] == x);
                }
            }
            if x == n {
                assert(v@[j as int] == n);
            }
        }
    }
}

/// Reads a maximum-communication payload.
pub fn parse_server_player_communication_max(payload: &[u8]) -> (r: Result<(usize, Vec<usize>), BridgeError>)
    ensures
        match r {
            Ok((id, regions)) => communication_max_error(payload@) is None
                && communication_max_parsed(payload@, id, regions@),
            Err(e) => communication_max_error(payload@) == Some(e),
        },
{
    let text = payload_chars(payload)?;
    let (id_text, ids) = match split_once_chars(&text, '|') {
        Some(p) => p,
        None => return Err(BridgeError::MissingValue),
    };
    let athlete_id = match parse_usize_chars(&id_text) {
        Some(n) => n,
        None => return Err(BridgeError::InvalidId),
    };
    let mut listed: Vec<usize> = Vec::new();
    if !crate::text::is_blank(&ids) {
        let pieces = split_chars(&ids, ',');
        let ghost ps = views(pieces@);
        let mut k: usize = 0;
        while k < pieces.len()
            invariant
                k <= pieces.len(),
                ps == views(pieces@),
                ps == split_pieces(ids@, ','),
                valid_utf8(payload@),
                split_once(decode_utf8(payload@), '|') == Some((id_text@, ids@)),
                parse_usize_spec(id_text@) == Some(athlete_id),
                trimmed(ids@).len() > 0,
                region_ids_of(ps.take(k as int)) == Ok::<Seq<usize>, BridgeError>(listed@),
            decreases pieces.len() - k,
        {
            proof {
                assert(ps.take(k + 1).drop_last() == ps.take(k as int));
                assert(ps.take(k + 1).last() == pieces@[k as int]@);
            }
            match parse_usize_chars(&pieces[k]) {
                Some(n) => listed.push(n),
                None => {
                    proof {
                        lemma_region_ids_prefix(ps, k + 1);
                    }
                    return Err(BridgeError::InvalidId);
                },
            }
            k += 1;
        }
        assert(ps.take(pieces.len() as int) == ps);
    }
    assert(listed_region_ids(ids@) == Ok::<Seq<usize>, BridgeError>(listed@));
    let mut regions: Vec<usize> = Vec::new();
    let mut k: usize = 0;
    while k < listed.len()
        invariant
            k <= listed.len(),
            increasing(regions@),
            forall|x: usize| regions@.contains(x) <==> listed@.take(k as int).contains(x),
        decreases listed.len() - k,
    {
        insert_sorted(&mut regions, listed[k]);
        k += 1;
        proof {
            assert(listed@.take(k as int) == listed@.take(k - 1).push(listed@[k - 1]));
            assert forall|x: usize| regions@.contains(x) <==> listed@.take(k as int).contains(x) by {
                if listed@.take(k as int).contains(x) && x != listed@[k - 1] {
                    let i = choose|i: int| 0 <= i < k && #[trigger] listed@.take(k as int)[i] == x;
                    assert(listed@.take(k - 1)[i] == x);
                }
                if listed@.take(k - 1).contains(x) {
                    let i = choose|i: int| 0 <= i < k - 1 && #[trigger] listed@.take(k - 1)[i] == x;
                    assert(listed@.take(k as int)[i] == x);
                }
                if x == listed@[k - 1] {
                    assert(listed@.take(k as int)[k - 1] == x);
                }
            }
        }
    }
    assert(listed@.take(listed.len() as int) == listed@);
    if regions.len() == 0 {
        if listed.len() > 0 {
            assert(listed@.take(listed.len() as int).contains(listed@[0]));
            assert(regions@.contains(listed@[0]));
            assert(false);
        }
        return Err(BridgeError::NoRegionsDetected);
    }
    if listed.len() == 0 {
        assert(regions@.contains(regions@[0]));
    }
    Ok((athlete_id, regions))
}

/// Sorted distinct regions, sent in a maximum-communication payload, are read
/// back unchanged.
pub proof fn lemma_communication_max_round_trip(athlete_id: usize, regions: Seq<usize>)
    requires
        regions.len() > 0,
        increasing(regions),
    ensures
        communication_max_parsed(
            encode_utf8(
                decimal_text(athlete_id as nat).push('|') + numbers_text(
                    regions.map_values(|x: usize| x as nat),
                    ',',
                ),
            ),
            athlete_id,
            regions,
        ),
{
    let ns = regions.map_values(|x: usize| x as nat);
    let body = numbers_text(ns, ',');
    let t = decimal_text(athlete_id as nat).push('|') + body;
    lemma_payload_text(t);
    lemma_id_text(athlete_id);
    lemma_split_once_joined(decimal_text(athlete_id as nat), body, '|');
    lemma_numbers_pieces(ns, ',');
    let ps = ns.map_values(|n: nat| decimal_text(n));
    lemma_decimal_ends(ns[0]);
    lemma_region_ids_of_texts(regions);
    lemma_join_first(ps, ',');
    assert(body[0] == ps[0][0]);
    lemma_blank_starts(body);
}

/// Reading the decimal texts of ids gives the ids back.
pub proof fn lemma_region_ids_of_texts(ids: Seq<usize>)
    ensures
        region_ids_of(ids.map_values(|x: usize| x as nat).map_values(|n: nat| decimal_text(n)))
            == Ok::<Seq<usize>, BridgeError>(ids),
    decreases ids.len(),
{
    let ps = ids.map_values(|x: usize| x as nat).map_values(|n: nat| decimal_text(n));
    if ids.len() > 0 {
        lemma_region_ids_of_texts(ids.drop_last());
        assert(ps.drop_last() =~= ids.drop_last().map_values(|x: usize| x as nat).map_values(
            |n: nat| decimal_text(n),
        ));
        lemma_id_text(ids.last());
        assert(ps.last() == decimal_text(ids.last() as nat));
        assert(ids.drop_last().push(ids.last()) == ids);
    }
}

/// A text whose first character is not white space is not blank.
pub proof fn lemma_blank_starts(s: Seq<char>)
    ensures
        s.len() > 0 && !crate::text::is_white_space(s[0]) ==> trimmed(s).len() > 0,
{
    if s.len() > 0 && !crate::text::is_white_space(s[0]) {
        assert(crate::text::skip_white_space(s, 0) == 0);
        crate::text::lemma_trim_bounds(s);
        assert(crate::text::back_white_space(s, 0, s.len() as int) > 0) by {
            lemma_back_white_space_keeps(s, s.len() as int);
        }
    }
}

proof fn lemma_back_white_space_keeps(s: Seq<char>, j: int)
    requires
        0 < j <= s.len(),
        !crate::text::is_white_space(s[0]),
    ensures
        crate::text::back_white_space(s, 0, j) > 0,
    decreases j,
{
    if crate::text::is_white_space(s[j - 1]) {
        assert(j > 1);
        lemma_back_white_space_keeps(s, j - 1);
    }
}

/// Joined pieces start with the first piece.
pub proof fn lemma_join_first(ps: Seq<Seq<char>>, sep: char)
    requires
        ps.len() >= 1,
    ensures
        join_pieces(ps, sep).len() >= ps[0].len(),
        forall|i: int| 0 <= i < ps[0].len() ==> #[trigger] join_pieces(ps, sep)[i] == ps[0][i],
    decreases ps.len(),
{
    if ps.len() > 1 {
        let d = ps.drop_last();
        lemma_join_first(d, sep);
        assert(d[0] == ps[0]);
        let j = join_pieces(d, sep).push(sep) + ps.last();
        assert forall|i: int| 0 <= i < ps[0].len() implies #[trigger] join_pieces(ps, sep)[i] == ps[0][i] by {
            assert(j[i] == join_pieces(d, sep)[i]);
        }
    }
}

// ---------------------------------------------------------------------------
// Champion mastery
// ---------------------------------------------------------------------------
/// A champion and the mastery to give a player on it.
pub struct ChampionMasteryValue {
    pub champion_id: String,
    pub mastery: u16,
}

/// The entries as (champion id, mastery) pairs.
pub open spec fn mastery_view(vs: Seq<ChampionMasteryValue>) -> Seq<(Seq<char>, u16)> {
    vs.map_values(|v: ChampionMasteryValue| (v.champion_id@, v.mastery))
}

/// A character of a champion id: an ASCII letter or digit, or `_`.
pub open spec fn is_champion_char(c: char) -> bool {
    ('0' <= c <= '9') || ('a' <= c <= 'z') || ('A' <= c <= 'Z') || c == '_'
}

pub open spec fn champion_id_ok(id: Seq<char>) -> bool {
    id.len() > 0 && forall|i: int| 0 <= i < id.len() ==> is_champion_char(#[trigger] id[i])
}

/// The first problem among the entries from index `i` on.
pub open spec fn mastery_issue(es: Seq<(Seq<char>, u16)>, i: int) -> Option<BridgeError>
    decreases es.len() - i,
{
    if i < 0 || i >= es.len() {
        None
    } else if !champion_id_ok(es[i].0) {
        Some(BridgeError::InvalidChampionId)
    } else if es[i].1 > 100 {
        Some(BridgeError::MasteryOutOfRange)
    } else {
        mastery_issue(es, i + 1)
    }
}

/// `validate_champion_mastery_values`.
pub open spec fn mastery_check(es: Seq<(Seq<char>, u16)>) -> Result<(), BridgeError> {
    if es.len() == 0 {
        Err(BridgeError::NoChampionsSelected)
    } else {
        match mastery_issue(es, 0) {
            Some(e) => Err(e),
            None => Ok(()),
        }
    }
}

fn champion_char(c: char) -> (r: bool)
    ensures
        r == is_champion_char(c),
{
    ('0' <= c && c <= '9') || ('a' <= c && c <= 'z') || ('A' <= c && c <= 'Z') || c == '_'
}

fn champion_id_valid(id: &str) -> (r: bool)
    ensures
        r == champion_id_ok(id@),
{
    let v = chars_of(id);
    if v.len() == 0 {
        return false;
    }
    let mut i: usize = 0;
    while i < v.len()
        invariant
            i <= v.len(),
            v@ == id@,
            forall|k: int| 0 <= k < i ==> is_champion_char(#[trigger] v@[k]),
        decreases v.len() - i,
    {
        if !champion_char(v[i]) {
            assert(!is_champion_char(id@[i as int]));
            return false;
        }
        i += 1;
    }
    true
}

/// Checks mastery entries: at least one, each with a valid champion id and a
/// mastery of at most 100.
pub fn validate_champion_mastery_values(values: &[ChampionMasteryValue]) -> (r: Result<(), BridgeError>)
    ensures
        r == mastery_check(mastery_view(values@)),
{
    let ghost es = mastery_view(values@);
    if values.len() == 0 {
        return Err(BridgeError::NoChampionsSelected);
    }
    let mut i: usize = 0;
    while i < values.len()
        invariant
            i <= values.len(),
            values.len() > 0,
            es == mastery_view(values@),
            mastery_issue(es, 0) == mastery_issue(es, i as int),
        decreases values.len() - i,
    {
        assert(es[i as int] == (values@[i as int].champion_id@, values@[i as int].mastery));
        if !champion_id_valid(values[i].champion_id.as_str()) {
            return Err(BridgeError::InvalidChampionId);
        }
        if values[i].mastery > 100 {
            return Err(BridgeError::MasteryOutOfRange);
        }
        i += 1;
    }
    Ok(())
}

/// `"{champion}:{mastery}"`.
pub open spec fn mastery_entry_text(e: (Seq<char>, u16)) -> Seq<char> {
    e.0.push(':') + decimal_text(e.1 as nat)
}

/// The entries joined with `;`.
pub open spec fn mastery_text(es: Seq<(Seq<char>, u16)>) -> Seq<char> {
    join_pieces(es.map_values(|e: (Seq<char>, u16)| mastery_entry_text(e)), ';')
}

/// The payload of a mastery change: `"{athlete_id}|{entries}"`.
pub fn champion_mastery_payload(athlete_id: usize, values: &[ChampionMasteryValue]) -> (r: Vec<u8>)
    ensures
        r@ == encode_utf8(
            decimal_text(athlete_id as nat).push('|') + mastery_text(mastery_view(values@)),
        ),
{
    let mut out = id_prefix(athlete_id);
    let ghost head = out@;
    let ghost es = mastery_view(values@);
    let mut k: usize = 0;
    while k < values.len()
        invariant
            k <= values.len(),
            es == mastery_view(values@),
            out@ == head + mastery_text(es.take(k as int)),
        decreases values.len() - k,
    {
        let ghost before = es.take(k as int);
        if k != 0 {
            out.push(';');
        }
        crate::text::extend_str(&mut out, values[k].champion_id.as_str());
        out.push(':');
        push_decimal(&mut out, values[k].mastery as u128);
        k += 1;
        proof {
            let now = es.take(k as int);
            let f = |e: (Seq<char>, u16)| mastery_entry_text(e);
            assert(now.drop_last() == before);
            assert(now.map_values(f).drop_last() =~= before.map_values(f));
            assert(now.last() == es[k - 1]);
            assert(now.map_values(f).last() == mastery_entry_text(es[k - 1]));
            if k == 1 {
                assert(now.map_values(f) =~= seq![mastery_entry_text(es[0])]);
            }
        }
    }
    assert(es.take(values.len() as int) == es);
    chars_bytes(&out)
}

/// Reads `champion:mastery` pieces in order, skipping blank ones; the first
/// malformed piece decides the error.
pub open spec fn mastery_entries(ps: Seq<Seq<char>>) -> Result<Seq<(Seq<char>, u16)>, BridgeError>
    decreases ps.len(),
{
    if ps.len() == 0 {
        Ok(Seq::empty())
    } else {
        match mastery_entries(ps.drop_last()) {
            Err(e) => Err(e),
            Ok(es) => {
                let p = ps.last();
                if trimmed(p).len() == 0 {
                    Ok(es)
                } else {
                    match split_once(p, ':') {
                        None => Err(BridgeError::InvalidMasteryEntry),
                        Some((c, m)) => match parse_u16_spec(m) {
                            None => Err(BridgeError::InvalidMastery),
                            Some(level) => Ok(es.push((c, level))),
                        },
                    }
                }
            },
        }
    }
}

pub proof fn lemma_mastery_entries_prefix(ps: Seq<Seq<char>>, k: int)
    requires
        0 <= k <= ps.len(),
        mastery_entries(ps.take(k)) is Err,
    ensures
        mastery_entries(ps) == mastery_entries(ps.take(k)),
    decreases ps.len(),
{
    if k < ps.len() {
        assert(ps.drop_last().take(k) == ps.take(k));
        lemma_mastery_entries_prefix(ps.drop_last(), k);
    } else {
        assert(ps.take(k) == ps);
    }
}

/// Reads `champion:mastery` entries separated by `;`, skipping blank ones.
pub(crate) fn read_mastery_entries(entries: &Vec<char>) -> (r: Result<Vec<ChampionMasteryValue>, BridgeError>)
    ensures
        match r {
            Ok(vs) => mastery_entries(split_pieces(entries@, ';')) == Ok::<
                Seq<(Seq<char>, u16)>,
                BridgeError,
            >(mastery_view(vs@)),
            Err(e) => mastery_entries(split_pieces(entries@, ';')) == Err::<Seq<(Seq<char>, u16)>, BridgeError>(e),
        },
{
    let pieces = split_chars(&entries, ';');
    let ghost ps = views(pieces@);
    let mut values: Vec<ChampionMasteryValue> = Vec::new();
    assert(ps.take(0) =~= Seq::<Seq<char>>::empty());
    assert(mastery_view(values@) =~= Seq::<(Seq<char>, u16)>::empty());
    let mut k: usize = 0;
    while k < pieces.len()
        invariant
            k <= pieces.len(),
            ps == views(pieces@),
            ps == split_pieces(entries@, ';'),
            mastery_entries(ps.take(k as int)) == Ok::<Seq<(Seq<char>, u16)>, BridgeError>(
                mastery_view(values@),
            ),
        decreases pieces.len() - k,
    {
        proof {
            assert(ps.take(k + 1).drop_last() == ps.take(k as int));
            assert(ps.take(k + 1).last() == pieces@[k as int]@);
        }
        if !crate::text::is_blank(&pieces[k]) {
            let (champion, mastery_text) = match split_once_chars(&pieces[k], ':') {
                Some(p) => p,
                None => {
                    proof {
                        lemma_mastery_entries_prefix(ps, k + 1);
                    }
                    return Err(BridgeError::InvalidMasteryEntry);
                },
            };
            let mastery = match parse_u16_chars(&mastery_text) {
                Some(n) => n,
                None => {
                    proof {
                        lemma_mastery_entries_prefix(ps, k + 1);
                    }
                    return Err(BridgeError::InvalidMastery);
                },
            };
            let ghost before = values@;
            values.push(ChampionMasteryValue { champion_id: string_of(&champion), mastery });
            assert(mastery_view(values@) =~= mastery_view(before).push((champion@, mastery)));
        }
        k += 1;
    }
    assert(ps.take(pieces.len() as int) == ps);
    Ok(values)
}

/// What the server reads from a mastery payload.
pub open spec fn mastery_parsed(payload: Seq<u8>) -> Result<(usize, Seq<(Seq<char>, u16)>), BridgeError> {
    if !valid_utf8(payload) {
        Err(BridgeError::InvalidPayload)
    } else {
        match split_once(decode_utf8(payload), '|') {
            None => Err(BridgeError::MissingValue),
            Some((a, rest)) => match parse_usize_spec(a) {
                None => Err(BridgeError::InvalidId),
                Some(id) => match mastery_entries(split_pieces(rest, ';')) {
                    Err(e) => Err(e),
                    Ok(es) => match mastery_check(es) {
                        Err(e) => Err(e),
                        Ok(_) => Ok((id, es)),
                    },
                },
            },
        }
    }
}

/// Reads a mastery payload.
pub fn parse_server_champion_mastery(payload: &[u8]) -> (r: Result<(usize, Vec<ChampionMasteryValue>), BridgeError>)
    ensures
        match r {
            Ok((id, vs)) => mastery_parsed(payload@) == Ok::<
                (usize, Seq<(Seq<char>, u16)>),
                BridgeError,
            >((id, mastery_view(vs@))),
            Err(e) => mastery_parsed(payload@) == Err::<(usize, Seq<(Seq<char>, u16)>), BridgeError>(
                e,
            ),
        },
{
    let text = payload_chars(payload)?;
    let (id_text, entries) = match split_once_chars(&text, '|') {
        Some(p) => p,
        None => return Err(BridgeError::MissingValue),
    };
    let athlete_id = match parse_usize_chars(&id_text) {
        Some(n) => n,
        None => return Err(BridgeError::InvalidId),
    };
    let values = read_mastery_entries(&entries)?;
    validate_champion_mastery_values(values.as_slice())?;
    Ok((athlete_id, values))
}

/// Reading the text of each entry gives the entries back.
pub proof fn lemma_mastery_entries_of_texts(es: Seq<(Seq<char>, u16)>)
    requires
        forall|i: int| 0 <= i < es.len() ==> champion_id_ok(#[trigger] es[i].0),
    ensures
        mastery_entries(es.map_values(|e: (Seq<char>, u16)| mastery_entry_text(e))) == Ok::<
            Seq<(Seq<char>, u16)>,
            BridgeError,
        >(es),
    decreases es.len(),
{
    let f = |e: (Seq<char>, u16)| mastery_entry_text(e);
    let ps = es.map_values(f);
    if es.len() > 0 {
        assert forall|i: int| 0 <= i < es.drop_last().len() implies champion_id_ok(
            #[trigger] es.drop_last()[i].0,
        ) by {
            assert(es.drop_last()[i] == es[i]);
        }
        lemma_mastery_entries_of_texts(es.drop_last());
        assert(ps.drop_last() =~= es.drop_last().map_values(f));
        let e = es.last();
        assert(champion_id_ok(es[es.len() - 1].0));
        assert(ps.last() == mastery_entry_text(e));
        lemma_mastery_piece(e.0, e.1);
        assert(es.drop_last().push(e) == es);
    }
}

/// One entry's text reads back as the entry.
pub proof fn lemma_mastery_piece(c: Seq<char>, m: u16)
    requires
        champion_id_ok(c),
    ensures
        trimmed(mastery_entry_text((c, m))).len() > 0,
        split_once(mastery_entry_text((c, m)), ':') == Some((c, decimal_text(m as nat))),
        parse_u16_spec(decimal_text(m as nat)) == Some(m),
{
    let b = decimal_text(m as nat);
    let p = c.push(':') + b;
    lemma_decimal_ends(m as nat);
    assert(is_champion_char(c[0]));
    assert(p[0] == c[0]);
    assert(p[p.len() - 1] == b.last());
    crate::text::lemma_trimmed_unchanged(p);
    assert(!c.contains(':')) by {
        if c.contains(':') {
            let k = choose|k: int| 0 <= k < c.len() && c[k] == ':';
            assert(is_champion_char(c[k]));
        }
    }
    lemma_split_once_joined(c, b, ':');
    lemma_parse_decimal_text(m as nat, u16::MAX as nat);
}

/// Mastery entries that pass the checks, sent in a payload, are read back
/// unchanged.
pub proof fn lemma_champion_mastery_round_trip(athlete_id: usize, es: Seq<(Seq<char>, u16)>)
    requires
        mastery_check(es) == Ok::<(), BridgeError>(()),
    ensures
        mastery_parsed(encode_utf8(decimal_text(athlete_id as nat).push('|') + mastery_text(es)))
            == Ok::<(usize, Seq<(Seq<char>, u16)>), BridgeError>((athlete_id, es)),
{
    let f = |e: (Seq<char>, u16)| mastery_entry_text(e);
    let ps = es.map_values(f);
    let t = decimal_text(athlete_id as nat).push('|') + mastery_text(es);
    lemma_payload_text(t);
    lemma_id_text(athlete_id);
    lemma_split_once_joined(decimal_text(athlete_id as nat), mastery_text(es), '|');
    assert forall|i: int| 0 <= i < es.len() implies champion_id_ok(#[trigger] es[i].0) by {
        lemma_mastery_issue_ok(es, 0, i);
    }
    assert forall|i: int| 0 <= i < ps.len() implies !(#[trigger] ps[i]).contains(';') by {
        let e = es[i];
        assert(champion_id_ok(es[i].0));
        lemma_decimal_ends(e.1 as nat);
        let a = e.0;
        let b = decimal_text(e.1 as nat);
        if ps[i].contains(';') {
            let k = choose|k: int| 0 <= k < ps[i].len() && ps[i][k] == ';';
            if k < a.len() {
                assert(is_champion_char(a[k]));
            } else if k > a.len() {
                assert(b[k - a.len() - 1] == ';');
            }
        }
    }
    crate::text::lemma_split_join(ps, ';');
    lemma_mastery_entries_of_texts(es);
}

/// Entries that pass the checks have valid champion ids.
pub proof fn lemma_mastery_issue_ok(es: Seq<(Seq<char>, u16)>, i: int, k: int)
    requires
        0 <= i <= k < es.len(),
        mastery_issue(es, i) is None,
    ensures
        champion_id_ok(es[k].0),
    decreases k - i,
{
    if i < k {
        lemma_mastery_issue_ok(es, i + 1, k);
    }
}

/// The regions that appear anywhere, each once, in increasing order
/// (`sort_unstable` then `dedup`).
pub fn sorted_region_ids(ids: &[usize]) -> (r: Vec<usize>)
    ensures
        increasing(r@),
        forall|x: usize| r@.contains(x) <==> ids@.contains(x),
{
    let mut out: Vec<usize> = Vec::new();
    let mut i: usize = 0;
    while i < ids.len()
        invariant
            i <= ids.len(),
            increasing(out@),
            forall|x: usize| out@.contains(x) <==> ids@.take(i as int).contains(x),
        decreases ids.len() - i,
    {
        insert_sorted(&mut out, ids[i]);
        proof {
            assert(ids@.take(i + 1) == ids@.take(i as int).push(ids@[i as int]));
        }
        i += 1;
    }
    assert(ids@.take(ids.len() as int) == ids@);
    out
}

/// The name of a primary region: the six known regions by name, another
/// as `Region {id}`, none as empty text.
pub open spec fn region_name_text(region: Option<usize>) -> Seq<char> {
    match region {
        Some(0) => "Korea"@,
        Some(1) => "China"@,
        Some(2) => "Europe"@,
        Some(3) => "North America"@,
        Some(4) => "South America"@,
        Some(5) => "Japan"@,
        Some(id) => "Region "@ + decimal_text(id as nat),
        None => Seq::empty(),
    }
}

/// The name shown for a player's primary region.
pub fn region_name(region: Option<usize>) -> (r: String)
    ensures
        r@ == region_name_text(region),
{
    match region {
        Some(0) => String::from_str("Korea"),
        Some(1) => String::from_str("China"),
        Some(2) => String::from_str("Europe"),
        Some(3) => String::from_str("North America"),
        Some(4) => String::from_str("South America"),
        Some(5) => String::from_str("Japan"),
        Some(id) => {
            let mut v = chars_of("Region ");
            push_decimal(&mut v, id as u128);
            string_of(&v)
        },
        None => String::new(),
    }
}

/// A position payload splits on `|` into the player id and then the top,
/// jungle, mid, bottom and support proficiencies, each in decimal.
pub proof fn lemma_positions_payload_fields(athlete_id: usize, v: PlayerPositionValues)
    ensures
        ({
        let f = split_pieces(numbers_text(seq![athlete_id as nat] + position_numbers(v), '|'), '|');
        &&& f.len() == 6
        &&& f[0] == decimal_text(athlete_id as nat)
        &&& f[1] == decimal_text(v.top as nat)
        &&& f[2] == decimal_text(v.jungle as nat)
        &&& f[3] == decimal_text(v.mid as nat)
        &&& f[4] == decimal_text(v.bottom as nat)
        &&& f[5] == decimal_text(v.support as nat)
        }),
{
    lemma_numbers_pieces(seq![athlete_id as nat] + position_numbers(v), '|');
}

} // verus!
