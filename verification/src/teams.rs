//! Team edits: fan counts, fan settings and merchandise stock.

use vstd::prelude::*;
use vstd::utf8::{decode_utf8, encode_utf8, valid_utf8};
use crate::error::BridgeError;
use crate::localization::{lowercase, to_lowercase};
use crate::responses::{PlayerListEntry, StaffListEntry, TeamListEntry};
use crate::hex::{hex_decode, hex_decoded, hex_encode_into, hex_text, lemma_hex_round_trip, lemma_hex_text_excludes};
use crate::text::{
    lemma_lex_irreflexive, lemma_lex_total, lemma_lex_transitive, lex_lt, text_less, all_digits, chars_of, decimal_text, is_blank, is_digit, parse_i32_chars, parse_i32_spec,
    parse_u128_chars, parse_u128_spec, push_chars, split_chars, split_pieces, string_of,
    trim_chars, trimmed, unsigned_body, views,
};
use crate::wire::{
    id_prefix, lemma_id_text, lemma_payload_text, payload_chars, text_at, text_field, usize_at,
    usize_field,
};

verus! {

broadcast use {vstd::seq_lib::group_seq_properties, vstd::utf8::group_utf8_lib};

// ---------------------------------------------------------------------------
// Fan counts
// ---------------------------------------------------------------------------
/// The fan count that the game shows: the team's own fans plus the fans of
/// its roster players.
pub fn displayed_team_fan_count(base_team_fans: u128, roster_player_fans: u128) -> (r: Result<u128, BridgeError>)
    ensures
        match r {
            Ok(n) => n == base_team_fans + roster_player_fans,
            Err(e) => base_team_fans + roster_player_fans > u128::MAX && e
                == BridgeError::FanCountOverflow,
        },
{
    match base_team_fans.checked_add(roster_player_fans) {
        Some(n) => Ok(n),
        None => Err(BridgeError::FanCountOverflow),
    }
}

/// The team's own fans behind a shown fan count.
pub fn base_team_fan_count_from_displayed(displayed_fans: u128, roster_player_fans: u128) -> (r: Result<u128, BridgeError>)
    ensures
        match r {
            Ok(n) => n + roster_player_fans == displayed_fans,
            Err(e) => displayed_fans < roster_player_fans && e == BridgeError::FanCountBelowPlayerFans,
        },
{
    match displayed_fans.checked_sub(roster_player_fans) {
        Some(n) => Ok(n),
        None => Err(BridgeError::FanCountBelowPlayerFans),
    }
}

/// Writing back a shown fan count gives the team's own fans that it was
/// shown for, and showing the fans written back gives the count asked for.
pub proof fn lemma_fan_count_round_trip(base: u128, roster: u128, displayed: u128)
    ensures
        base + roster <= u128::MAX ==> (base + roster) as u128 - roster == base,
        displayed >= roster ==> (displayed - roster) + roster == displayed,
        displayed < roster ==> displayed - roster < 0,
{
}

// ---------------------------------------------------------------------------
// Fan settings
// ---------------------------------------------------------------------------
/// New fan settings for a team, as the editor sends them.
pub struct TeamFansWriteValue {
    pub popularity: String,
    pub fan_count: String,
    pub fan_expectation: String,
    pub fan_satisfaction: String,
    pub fan_momentum: String,
}

/// The fields as text: popularity, count, expectation, satisfaction, momentum.
pub open spec fn fans_view(v: TeamFansWriteValue) -> (Seq<char>, Seq<char>, Seq<char>, Seq<char>, Seq<char>) {
    (v.popularity@, v.fan_count@, v.fan_expectation@, v.fan_satisfaction@, v.fan_momentum@)
}

/// `validate_team_fans_write`: popularity, expectation and satisfaction not
/// blank, a `u128` fan count and an `i32` momentum from -5 to 5, each
/// once trimmed, checked in field order.
pub open spec fn fans_check(v: (Seq<char>, Seq<char>, Seq<char>, Seq<char>, Seq<char>)) -> Result<(), BridgeError> {
    if trimmed(v.0).len() == 0 {
        Err(BridgeError::InvalidFanPopularity)
    } else if parse_u128_spec(trimmed(v.1)) is None {
        Err(BridgeError::InvalidFanCount)
    } else if trimmed(v.2).len() == 0 {
        Err(BridgeError::InvalidFanExpectation)
    } else if trimmed(v.3).len() == 0 {
        Err(BridgeError::InvalidFanSatisfaction)
    } else {
        match parse_i32_spec(trimmed(v.4)) {
            None => Err(BridgeError::InvalidFanMomentum),
            Some(m) => if -5 <= m <= 5 {
                Ok(())
            } else {
                Err(BridgeError::FanMomentumOutOfRange)
            },
        }
    }
}

/// Checks new fan settings.
pub fn validate_team_fans_write(values: &TeamFansWriteValue) -> (r: Result<(), BridgeError>)
    ensures
        r == fans_check(fans_view(*values)),
{
    if is_blank(&chars_of(values.popularity.as_str())) {
        return Err(BridgeError::InvalidFanPopularity);
    }
    if parse_u128_chars(&trim_chars(&chars_of(values.fan_count.as_str()))).is_none() {
        return Err(BridgeError::InvalidFanCount);
    }
    if is_blank(&chars_of(values.fan_expectation.as_str())) {
        return Err(BridgeError::InvalidFanExpectation);
    }
    if is_blank(&chars_of(values.fan_satisfaction.as_str())) {
        return Err(BridgeError::InvalidFanSatisfaction);
    }
    let momentum = match parse_i32_chars(&trim_chars(&chars_of(values.fan_momentum.as_str()))) {
        Some(m) => m,
        None => return Err(BridgeError::InvalidFanMomentum),
    };
    if !(-5 <= momentum && momentum <= 5) {
        return Err(BridgeError::FanMomentumOutOfRange);
    }
    Ok(())
}

/// The payload text of new fan settings.
pub open spec fn fans_text(team_id: usize, v: (Seq<char>, Seq<char>, Seq<char>, Seq<char>, Seq<char>)) -> Seq<char> {
    decimal_text(team_id as nat).push('|') + trimmed(v.0).push('|') + trimmed(v.1).push('|')
        + hex_text(trimmed(v.2)).push('|') + hex_text(trimmed(v.3)).push('|') + trimmed(v.4)
}

/// The payload of a fan settings change: id, popularity, count, hex
/// expectation, hex satisfaction and momentum, each trimmed.
pub fn team_fans_write_payload(team_id: usize, values: &TeamFansWriteValue) -> (r: Vec<u8>)
    ensures
        r@ == encode_utf8(fans_text(team_id, fans_view(*values))),
{
    let mut s = string_of(&id_prefix(team_id));
    push_chars(&mut s, &trim_chars(&chars_of(values.popularity.as_str())));
    s.push('|');
    push_chars(&mut s, &trim_chars(&chars_of(values.fan_count.as_str())));
    s.push('|');
    let expectation = string_of(&trim_chars(&chars_of(values.fan_expectation.as_str())));
    hex_encode_into(&mut s, expectation.as_str());
    s.push('|');
    let satisfaction = string_of(&trim_chars(&chars_of(values.fan_satisfaction.as_str())));
    hex_encode_into(&mut s, satisfaction.as_str());
    s.push('|');
    push_chars(&mut s, &trim_chars(&chars_of(values.fan_momentum.as_str())));
    proof {
        let v = fans_view(*values);
        assert(s@ =~= fans_text(team_id, v));
    }
    s.as_str().as_bytes_vec()
}

/// What the server reads from a fan settings payload: six fields, the
/// expectation and satisfaction decoded from hex, then checked.
pub open spec fn fans_parsed(payload: Seq<u8>) -> Result<(usize, (Seq<char>, Seq<char>, Seq<char>, Seq<char>, Seq<char>)), BridgeError> {
    if !valid_utf8(payload) {
        Err(BridgeError::InvalidPayload)
    } else {
        let ps = split_pieces(decode_utf8(payload), '|');
        match usize_field(ps, 0) {
            Err(e) => Err(e),
            Ok(id) => match text_field(ps, 1) {
                Err(e) => Err(e),
                Ok(popularity) => match text_field(ps, 2) {
                    Err(e) => Err(e),
                    Ok(count) => match text_field(ps, 3) {
                        Err(e) => Err(e),
                        Ok(x) => match hex_decoded(x) {
                            Err(e) => Err(e),
                            Ok(expectation) => match text_field(ps, 4) {
                                Err(e) => Err(e),
                                Ok(y) => match hex_decoded(y) {
                                    Err(e) => Err(e),
                                    Ok(satisfaction) => match text_field(ps, 5) {
                                        Err(e) => Err(e),
                                        Ok(momentum) => {
                                            let v = (popularity, count, expectation, satisfaction, momentum);
                                            match fans_check(v) {
                                                Err(e) => Err(e),
                                                Ok(_) => Ok((id, v)),
                                            }
                                        },
                                    },
                                },
                            },
                        },
                    },
                },
            },
        }
    }
}

/// Reads a fan settings payload.
pub fn parse_team_fans_write_payload(payload: &[u8]) -> (r: Result<(usize, TeamFansWriteValue), BridgeError>)
    ensures
        match r {
            Ok((id, v)) => fans_parsed(payload@) == Ok::<
                (usize, (Seq<char>, Seq<char>, Seq<char>, Seq<char>, Seq<char>)),
                BridgeError,
            >((id, fans_view(v))),
            Err(e) => fans_parsed(payload@) == Err::<
                (usize, (Seq<char>, Seq<char>, Seq<char>, Seq<char>, Seq<char>)),
                BridgeError,
            >(e),
        },
{
    let text = payload_chars(payload)?;
    let parts = split_chars(&text, '|');
    let team_id = usize_at(&parts, 0)?;
    let popularity = text_at(&parts, 1)?;
    let fan_count = text_at(&parts, 2)?;
    let x = text_at(&parts, 3)?;
    let fan_expectation = hex_decode(x.as_str())?;
    let y = text_at(&parts, 4)?;
    let fan_satisfaction = hex_decode(y.as_str())?;
    let fan_momentum = text_at(&parts, 5)?;
    let values = TeamFansWriteValue {
        popularity,
        fan_count,
        fan_expectation,
        fan_satisfaction,
        fan_momentum,
    };
    validate_team_fans_write(&values)?;
    Ok((team_id, values))
}

/// The text of a number that `str::parse` accepts holds no `|`.
pub proof fn lemma_number_text_no_bar(s: Seq<char>)
    requires
        parse_u128_spec(s) is Some || parse_i32_spec(s) is Some,
    ensures
        !s.contains('|'),
{
    if s.contains('|') {
        let k = choose|k: int| 0 <= k < s.len() && s[k] == '|';
        if k > 0 {
            assert(s.drop_first()[k - 1] == '|');
            assert(unsigned_body(s)[k - 1] == '|' || unsigned_body(s)[k] == '|');
        } else {
            assert(unsigned_body(s)[0] == '|');
        }
    }
}

/// The pieces of a fan settings payload.
pub open spec fn fans_pieces(team_id: usize, v: (Seq<char>, Seq<char>, Seq<char>, Seq<char>, Seq<char>)) -> Seq<Seq<char>> {
    seq![decimal_text(team_id as nat), v.0, v.1, hex_text(v.2), hex_text(v.3), v.4]
}

proof fn lemma_fans_text_pieces(team_id: usize, v: (Seq<char>, Seq<char>, Seq<char>, Seq<char>, Seq<char>))
    requires
        trimmed(v.0) == v.0,
        trimmed(v.1) == v.1,
        trimmed(v.2) == v.2,
        trimmed(v.3) == v.3,
        trimmed(v.4) == v.4,
        !v.0.contains('|'),
        !v.1.contains('|'),
        !v.4.contains('|'),
    ensures
        split_pieces(fans_text(team_id, v), '|') == fans_pieces(team_id, v),
{
    let t = fans_text(team_id, v);
    let ps = fans_pieces(team_id, v);
    lemma_id_text(team_id);
    lemma_hex_text_excludes(v.2, '|');
    lemma_hex_text_excludes(v.3, '|');
    assert(t == crate::text::join_pieces(ps, '|')) by {
        reveal_with_fuel(crate::text::join_pieces, 7);
        assert(ps.drop_last().drop_last().drop_last().drop_last().drop_last() =~= seq![
            decimal_text(team_id as nat),
        ]);
        assert(t =~= crate::text::join_pieces(ps, '|'));
    }
    assert forall|i: int| 0 <= i < ps.len() implies !(#[trigger] ps[i]).contains('|') by {
        if i == 0 {
        }
    }
    crate::text::lemma_split_join(ps, '|');
}

/// A fan settings payload, for values given already trimmed, splits on `|`
/// into the team id, the popularity, the fan count, the expectation and the
/// satisfaction (each decoding from hexadecimal to the value given) and the
/// momentum, in that order.
pub proof fn lemma_fans_payload_fields(team_id: usize, v: TeamFansWriteValue)
    requires
        trimmed(v.popularity@) == v.popularity@,
        trimmed(v.fan_count@) == v.fan_count@,
        trimmed(v.fan_expectation@) == v.fan_expectation@,
        trimmed(v.fan_satisfaction@) == v.fan_satisfaction@,
        trimmed(v.fan_momentum@) == v.fan_momentum@,
        !v.popularity@.contains('|'),
        !v.fan_count@.contains('|'),
        !v.fan_momentum@.contains('|'),
    ensures
        ({
        let f = split_pieces(fans_text(team_id, fans_view(v)), '|');
        &&& f.len() == 6
        &&& f[0] == decimal_text(team_id as nat)
        &&& f[1] == v.popularity@
        &&& f[2] == v.fan_count@
        &&& hex_decoded(f[3]) == Ok::<Seq<char>, BridgeError>(v.fan_expectation@)
        &&& hex_decoded(f[4]) == Ok::<Seq<char>, BridgeError>(v.fan_satisfaction@)
        &&& f[5] == v.fan_momentum@
        }),
{
    lemma_fans_text_pieces(team_id, fans_view(v));
    lemma_hex_round_trip(v.fan_expectation@);
    lemma_hex_round_trip(v.fan_satisfaction@);
}

/// Fan settings that pass the checks and are already trimmed, with a
/// popularity that holds no `|`, are read back unchanged.
#[verifier::rlimit(60)]
pub proof fn lemma_fans_round_trip(team_id: usize, v: (Seq<char>, Seq<char>, Seq<char>, Seq<char>, Seq<char>))
    requires
        fans_check(v) == Ok::<(), BridgeError>(()),
        trimmed(v.0) == v.0,
        trimmed(v.1) == v.1,
        trimmed(v.2) == v.2,
        trimmed(v.3) == v.3,
        trimmed(v.4) == v.4,
        !v.0.contains('|'),
    ensures
        fans_parsed(encode_utf8(fans_text(team_id, v))) == Ok::<
            (usize, (Seq<char>, Seq<char>, Seq<char>, Seq<char>, Seq<char>)),
            BridgeError,
        >((team_id, v)),
{
    let t = fans_text(team_id, v);
    lemma_payload_text(t);
    lemma_number_text_no_bar(v.1);
    lemma_number_text_no_bar(v.4);
    lemma_fans_text_pieces(team_id, v);
    lemma_id_text(team_id);
    lemma_hex_round_trip(v.2);
    lemma_hex_round_trip(v.3);
    let ps = split_pieces(t, '|');
    assert(decode_utf8(encode_utf8(t)) == t);
    assert(ps == fans_pieces(team_id, v));
    assert(ps.len() == 6);
    assert(usize_field(ps, 0) == Ok::<usize, BridgeError>(team_id));
    assert(text_field(ps, 1) == Ok::<Seq<char>, BridgeError>(v.0));
    assert(text_field(ps, 2) == Ok::<Seq<char>, BridgeError>(v.1));
    assert(text_field(ps, 3) == Ok::<Seq<char>, BridgeError>(hex_text(v.2)));
    assert(text_field(ps, 4) == Ok::<Seq<char>, BridgeError>(hex_text(v.3)));
    assert(text_field(ps, 5) == Ok::<Seq<char>, BridgeError>(v.4));
}

// ---------------------------------------------------------------------------
// Merchandise
// ---------------------------------------------------------------------------
/// New stock and price for one of a team's merchandise products.
pub struct TeamMerchandiseWriteValue {
    pub product_type: String,
    pub athlete_id: usize,
    pub stock: String,
    pub sell_price: String,
}

/// The fields as values: product type, athlete id, stock, sell price.
pub open spec fn merchandise_view(v: TeamMerchandiseWriteValue) -> (Seq<char>, usize, Seq<char>, Seq<char>) {
    (v.product_type@, v.athlete_id, v.stock@, v.sell_price@)
}

/// The checks of a merchandise change that come before its sell price: a
/// product type that is not blank and a `u128` stock once trimmed.
pub open spec fn merchandise_fields_check(v: (Seq<char>, usize, Seq<char>, Seq<char>)) -> Result<(), BridgeError> {
    if trimmed(v.0).len() == 0 {
        Err(BridgeError::InvalidMerchandiseType)
    } else if parse_u128_spec(trimmed(v.2)) is None {
        Err(BridgeError::InvalidMerchandiseStock)
    } else {
        Ok(())
    }
}

/// Checks the product type and the stock of a merchandise change.
pub fn validate_team_merchandise_fields(values: &TeamMerchandiseWriteValue) -> (r: Result<(), BridgeError>)
    ensures
        r == merchandise_fields_check(merchandise_view(*values)),
{
    if is_blank(&chars_of(values.product_type.as_str())) {
        return Err(BridgeError::InvalidMerchandiseType);
    }
    if parse_u128_chars(&trim_chars(&chars_of(values.stock.as_str()))).is_none() {
        return Err(BridgeError::InvalidMerchandiseStock);
    }
    Ok(())
}

/// The payload text of a merchandise change.
pub open spec fn merchandise_text(team_id: usize, v: (Seq<char>, usize, Seq<char>, Seq<char>)) -> Seq<char> {
    decimal_text(team_id as nat).push('|') + hex_text(v.0).push('|') + decimal_text(v.1 as nat).push('|')
        + trimmed(v.2).push('|') + trimmed(v.3)
}

/// The payload of a merchandise change: id, hex product type, athlete id,
/// trimmed stock and trimmed sell price.
pub fn team_merchandise_write_payload(team_id: usize, values: &TeamMerchandiseWriteValue) -> (r: Vec<u8>)
    ensures
        r@ == encode_utf8(merchandise_text(team_id, merchandise_view(*values))),
{
    let mut s = string_of(&id_prefix(team_id));
    hex_encode_into(&mut s, values.product_type.as_str());
    s.push('|');
    push_chars(&mut s, &id_prefix(values.athlete_id));
    push_chars(&mut s, &trim_chars(&chars_of(values.stock.as_str())));
    s.push('|');
    push_chars(&mut s, &trim_chars(&chars_of(values.sell_price.as_str())));
    proof {
        assert(s@ =~= merchandise_text(team_id, merchandise_view(*values)));
    }
    s.as_str().as_bytes_vec()
}

/// What the server reads from a merchandise payload before it checks the
/// sell price.
pub open spec fn merchandise_parsed(payload: Seq<u8>) -> Result<(usize, (Seq<char>, usize, Seq<char>, Seq<char>)), BridgeError> {
    if !valid_utf8(payload) {
        Err(BridgeError::InvalidPayload)
    } else {
        let ps = split_pieces(decode_utf8(payload), '|');
        match usize_field(ps, 0) {
            Err(e) => Err(e),
            Ok(id) => match text_field(ps, 1) {
                Err(e) => Err(e),
                Ok(x) => match hex_decoded(x) {
                    Err(e) => Err(e),
                    Ok(product_type) => match usize_field(ps, 2) {
                        Err(e) => Err(e),
                        Ok(athlete_id) => match text_field(ps, 3) {
                            Err(e) => Err(e),
                            Ok(stock) => match text_field(ps, 4) {
                                Err(e) => Err(e),
                                Ok(price) => {
                                    let v = (product_type, athlete_id, stock, price);
                                    match merchandise_fields_check(v) {
                                        Err(e) => Err(e),
                                        Ok(_) => Ok((id, v)),
                                    }
                                },
                            },
                        },
                    },
                },
            },
        }
    }
}

/// Reads a merchandise payload and checks its product type and stock; the
/// sell price, a floating-point number, is left to the caller.
pub fn parse_team_merchandise_fields(payload: &[u8]) -> (r: Result<(usize, TeamMerchandiseWriteValue), BridgeError>)
    ensures
        match r {
            Ok((id, v)) => merchandise_parsed(payload@) == Ok::<
                (usize, (Seq<char>, usize, Seq<char>, Seq<char>)),
                BridgeError,
            >((id, merchandise_view(v))),
            Err(e) => merchandise_parsed(payload@) == Err::<
                (usize, (Seq<char>, usize, Seq<char>, Seq<char>)),
                BridgeError,
            >(e),
        },
{
    let text = payload_chars(payload)?;
    let parts = split_chars(&text, '|');
    let team_id = usize_at(&parts, 0)?;
    let x = text_at(&parts, 1)?;
    let product_type = hex_decode(x.as_str())?;
    let athlete_id = usize_at(&parts, 2)?;
    let stock = text_at(&parts, 3)?;
    let sell_price = text_at(&parts, 4)?;
    let values = TeamMerchandiseWriteValue { product_type, athlete_id, stock, sell_price };
    validate_team_merchandise_fields(&values)?;
    Ok((team_id, values))
}

/// The pieces of a merchandise payload.
pub open spec fn merchandise_pieces(team_id: usize, v: (Seq<char>, usize, Seq<char>, Seq<char>)) -> Seq<Seq<char>> {
    seq![decimal_text(team_id as nat), hex_text(v.0), decimal_text(v.1 as nat), v.2, v.3]
}

proof fn lemma_merchandise_text_pieces(team_id: usize, v: (Seq<char>, usize, Seq<char>, Seq<char>))
    requires
        trimmed(v.2) == v.2,
        trimmed(v.3) == v.3,
        !v.2.contains('|'),
        !v.3.contains('|'),
    ensures
        split_pieces(merchandise_text(team_id, v), '|') == merchandise_pieces(team_id, v),
{
    let t = merchandise_text(team_id, v);
    let ps = merchandise_pieces(team_id, v);
    lemma_id_text(team_id);
    lemma_id_text(v.1);
    lemma_hex_text_excludes(v.0, '|');
    assert(t == crate::text::join_pieces(ps, '|')) by {
        reveal_with_fuel(crate::text::join_pieces, 6);
        assert(ps.drop_last().drop_last().drop_last().drop_last() =~= seq![
            decimal_text(team_id as nat),
        ]);
        assert(t =~= crate::text::join_pieces(ps, '|'));
    }
    assert forall|i: int| 0 <= i < ps.len() implies !(#[trigger] ps[i]).contains('|') by {
        if i == 0 {
        }
    }
    crate::text::lemma_split_join(ps, '|');
}

/// A merchandise payload, for a stock and price given already trimmed,
/// splits on `|` into the team id, the product type (decoding from
/// hexadecimal to the type given), the athlete id, the stock and the sell
/// price, in that order.
pub proof fn lemma_merchandise_payload_fields(team_id: usize, v: TeamMerchandiseWriteValue)
    requires
        trimmed(v.stock@) == v.stock@,
        trimmed(v.sell_price@) == v.sell_price@,
        !v.stock@.contains('|'),
        !v.sell_price@.contains('|'),
    ensures
        ({
        let f = split_pieces(merchandise_text(team_id, merchandise_view(v)), '|');
        &&& f.len() == 5
        &&& f[0] == decimal_text(team_id as nat)
        &&& hex_decoded(f[1]) == Ok::<Seq<char>, BridgeError>(v.product_type@)
        &&& f[2] == decimal_text(v.athlete_id as nat)
        &&& f[3] == v.stock@
        &&& f[4] == v.sell_price@
        }),
{
    lemma_merchandise_text_pieces(team_id, merchandise_view(v));
    lemma_hex_round_trip(v.product_type@);
}

/// A merchandise change with a product type that is not blank, a trimmed
/// `u128` stock and a trimmed sell price without `|` is read back unchanged.
#[verifier::rlimit(60)]
pub proof fn lemma_merchandise_round_trip(team_id: usize, v: (Seq<char>, usize, Seq<char>, Seq<char>))
    requires
        merchandise_fields_check(v) == Ok::<(), BridgeError>(()),
        trimmed(v.2) == v.2,
        trimmed(v.3) == v.3,
        !v.3.contains('|'),
    ensures
        merchandise_parsed(encode_utf8(merchandise_text(team_id, v))) == Ok::<
            (usize, (Seq<char>, usize, Seq<char>, Seq<char>)),
            BridgeError,
        >((team_id, v)),
{
    let t = merchandise_text(team_id, v);
    lemma_payload_text(t);
    lemma_number_text_no_bar(v.2);
    lemma_merchandise_text_pieces(team_id, v);
    lemma_id_text(team_id);
    lemma_id_text(v.1);
    lemma_hex_round_trip(v.0);
    let ps = split_pieces(t, '|');
    assert(decode_utf8(encode_utf8(t)) == t);
    assert(ps == merchandise_pieces(team_id, v));
    assert(usize_field(ps, 0) == Ok::<usize, BridgeError>(team_id));
    assert(text_field(ps, 1) == Ok::<Seq<char>, BridgeError>(hex_text(v.0)));
    assert(usize_field(ps, 2) == Ok::<usize, BridgeError>(v.1));
    assert(text_field(ps, 3) == Ok::<Seq<char>, BridgeError>(v.2));
    assert(text_field(ps, 4) == Ok::<Seq<char>, BridgeError>(v.3));
}

// ---------------------------------------------------------------------------
// Order of the team list
// ---------------------------------------------------------------------------
/// Whether team `a` is listed before team `b`: the player's team first, then
/// by lower-case display name, then by league id, then by team id.
pub open spec fn team_listed_before(a: TeamListEntry, b: TeamListEntry) -> bool {
    let (na, nb) = (lowercase(a.display_name@), lowercase(b.display_name@));
    ||| a.is_player_team && !b.is_player_team
    ||| a.is_player_team == b.is_player_team && lex_lt(na, nb)
    ||| a.is_player_team == b.is_player_team && na == nb && a.league_id < b.league_id
    ||| a.is_player_team == b.is_player_team && na == nb && a.league_id == b.league_id && a.id < b.id
}

/// The team-list order is a strict order: never both ways, never of a team
/// with itself, and transitive.
pub proof fn lemma_team_order(a: TeamListEntry, b: TeamListEntry, c: TeamListEntry)
    ensures
        !(team_listed_before(a, b) && team_listed_before(b, a)),
        !team_listed_before(a, a),
        team_listed_before(a, b) && team_listed_before(b, c) ==> team_listed_before(a, c),
{
    let (na, nb, nc) = (
        lowercase(a.display_name@),
        lowercase(b.display_name@),
        lowercase(c.display_name@),
    );
    lemma_lex_total(na, nb);
    lemma_lex_total(nb, nc);
    lemma_lex_total(na, nc);
    lemma_lex_irreflexive(na);
    if lex_lt(na, nb) && lex_lt(nb, nc) {
        lemma_lex_transitive(na, nb, nc);
    }
}

/// Whether `a` is listed before `b`, given their lower-case names.
fn team_precedes(a: &TeamListEntry, a_key: &Vec<char>, b: &TeamListEntry, b_key: &Vec<char>) -> (r: bool)
    requires
        a_key@ == lowercase(a.display_name@),
        b_key@ == lowercase(b.display_name@),
    ensures
        r == team_listed_before(*a, *b),
{
    if a.is_player_team != b.is_player_team {
        return a.is_player_team;
    }
    if text_less(a_key, b_key) {
        return true;
    }
    if text_less(b_key, a_key) {
        return false;
    }
    proof {
        lemma_lex_total(a_key@, b_key@);
    }
    if a.league_id != b.league_id {
        return a.league_id < b.league_id;
    }
    a.id < b.id
}

/// The team list in the order in which it is shown: the same entries, the
/// player's team first, then by lower-case display name, league id and team
/// id.
pub fn sort_team_list(teams: Vec<TeamListEntry>) -> (r: Vec<TeamListEntry>)
    ensures
        r@.to_multiset() == teams@.to_multiset(),
        r@.len() == teams@.len(),
        forall|a: int, b: int| 0 <= a < b < r@.len() ==> !team_listed_before(r@[b], r@[a]),
{
    let ghost src = teams@;
    assert(src.len() == teams.len());
    let mut rest = teams;
    let mut out: Vec<TeamListEntry> = Vec::new();
    let mut keys: Vec<Vec<char>> = Vec::new();
    let mut i: usize = 0;
    while rest.len() > 0
        invariant
            i <= src.len(),
            src.len() <= usize::MAX,
            rest@ == src.skip(i as int),
            out@.len() == keys@.len(),
            out@.len() == i,
            out@.to_multiset() == src.take(i as int).to_multiset(),
            forall|k: int| 0 <= k < keys@.len() ==> (#[trigger] keys@[k])@ == lowercase(out@[k].display_name@),
            forall|a: int, b: int| 0 <= a < b < out@.len() ==> !team_listed_before(out@[b], out@[a]),
        decreases rest.len(),
    {
        let t = rest.remove(0);
        let key_text = to_lowercase(t.display_name.as_str());
        let key = chars_of(key_text.as_str());
        let mut p: usize = 0;
        while p < out.len() && !team_precedes(&t, &key, &out[p], &keys[p])
            invariant
                p <= out.len(),
                out@.len() == keys@.len(),
                key@ == lowercase(t.display_name@),
                forall|k: int| 0 <= k < keys@.len() ==> (#[trigger] keys@[k])@ == lowercase(out@[k].display_name@),
                forall|a: int| 0 <= a < p ==> !team_listed_before(t, #[trigger] out@[a]),
            decreases out.len() - p,
        {
            p += 1;
        }
        let ghost old_out = out@;
        let ghost old_keys = keys@;
        proof {
            assert forall|a: int, b: int| 0 <= a < b < old_out.len() + 1 implies !team_listed_before(
                #[trigger] old_out.insert(p as int, t)[b],
                #[trigger] old_out.insert(p as int, t)[a],
            ) by {
                let n = old_out.insert(p as int, t);
                if b < p {
                    assert(n[a] == old_out[a] && n[b] == old_out[b]);
                } else if b == p {
                    assert(n[a] == old_out[a]);
                } else if a == p {
                    assert(n[b] == old_out[b - 1]);
                    assert(team_listed_before(t, old_out[p as int]));
                    lemma_team_order(old_out[b - 1], t, old_out[p as int]);
                    lemma_team_order(old_out[p as int], old_out[p as int], old_out[p as int]);
                } else if a < p {
                    assert(n[a] == old_out[a] && n[b] == old_out[b - 1]);
                } else {
                    assert(n[a] == old_out[a - 1] && n[b] == old_out[b - 1]);
                }
            }
            assert(src.take(i + 1) == src.take(i as int).push(src[i as int]));
            assert(t == src[i as int]);
            vstd::seq_lib::to_multiset_insert(old_out, p as int, t);
            assert(src.skip(i + 1) == src.skip(i as int).drop_first());
        }
        out.insert(p, t);
        keys.insert(p, key);
        i += 1;
        proof {
            assert forall|k: int| 0 <= k < keys@.len() implies (#[trigger] keys@[k])@ == lowercase(
                out@[k].display_name@,
            ) by {
                if k < p {
                    assert(keys@[k] == old_keys[k] && out@[k] == old_out[k]);
                } else if k > p {
                    assert(keys@[k] == old_keys[k - 1] && out@[k] == old_out[k - 1]);
                }
            }
        }
    }
    assert(src.take(src.len() as int) == src);
    out
}

// ---------------------------------------------------------------------------
// Order of the player and staff lists
// ---------------------------------------------------------------------------
/// Whether an entry named `na` with id `ia` is listed before one named `nb`
/// with id `ib`: by lower-case name, then by id.
pub open spec fn entry_listed_before(na: Seq<char>, ia: usize, nb: Seq<char>, ib: usize) -> bool {
    ||| lex_lt(lowercase(na), lowercase(nb))
    ||| lowercase(na) == lowercase(nb) && ia < ib
}

/// The list order is a strict order: never both ways, never of an entry
/// with itself, and transitive.
pub proof fn lemma_entry_order(
    na: Seq<char>,
    ia: usize,
    nb: Seq<char>,
    ib: usize,
    nc: Seq<char>,
    ic: usize,
)
    ensures
        !(entry_listed_before(na, ia, nb, ib) && entry_listed_before(nb, ib, na, ia)),
        !entry_listed_before(na, ia, na, ia),
        entry_listed_before(na, ia, nb, ib) && entry_listed_before(nb, ib, nc, ic)
            ==> entry_listed_before(na, ia, nc, ic),
{
    let (la, lb, lc) = (lowercase(na), lowercase(nb), lowercase(nc));
    lemma_lex_total(la, lb);
    lemma_lex_total(lb, lc);
    lemma_lex_total(la, lc);
    lemma_lex_irreflexive(la);
    if lex_lt(la, lb) && lex_lt(lb, lc) {
        lemma_lex_transitive(la, lb, lc);
    }
}

/// Whether an entry is listed before another, given their lower-case names.
fn entry_precedes(a: &String, ia: usize, a_key: &Vec<char>, b: &String, ib: usize, b_key: &Vec<char>) -> (r: bool)
    requires
        a_key@ == lowercase(a@),
        b_key@ == lowercase(b@),
    ensures
        r == entry_listed_before(a@, ia, b@, ib),
{
    if text_less(a_key, b_key) {
        return true;
    }
    if text_less(b_key, a_key) {
        return false;
    }
    proof {
        lemma_lex_total(a_key@, b_key@);
    }
    ia < ib
}

/// The player list in the order in which it is shown: the same entries, by
/// lower-case name, then by id.
pub fn sort_player_list(entries: Vec<PlayerListEntry>) -> (r: Vec<PlayerListEntry>)
    ensures
        r@.to_multiset() == entries@.to_multiset(),
        r@.len() == entries@.len(),
        forall|a: int, b: int| 0 <= a < b < r@.len() ==> !entry_listed_before(r@[b].name@, r@[b].id, r@[a].name@, r@[a].id),
{
    let ghost src = entries@;
    assert(src.len() == entries.len());
    let mut rest = entries;
    let mut out: Vec<PlayerListEntry> = Vec::new();
    let mut keys: Vec<Vec<char>> = Vec::new();
    let mut i: usize = 0;
    while rest.len() > 0
        invariant
            i <= src.len(),
            src.len() <= usize::MAX,
            rest@ == src.skip(i as int),
            out@.len() == keys@.len(),
            out@.len() == i,
            out@.to_multiset() == src.take(i as int).to_multiset(),
            forall|k: int| 0 <= k < keys@.len() ==> (#[trigger] keys@[k])@ == lowercase(out@[k].name@),
            forall|a: int, b: int| 0 <= a < b < out@.len() ==> !entry_listed_before(out@[b].name@, out@[b].id, out@[a].name@, out@[a].id),
        decreases rest.len(),
    {
        let t = rest.remove(0);
        let key_text = to_lowercase(t.name.as_str());
        let key = chars_of(key_text.as_str());
        let mut p: usize = 0;
        while p < out.len() && !entry_precedes(&t.name, t.id, &key, &out[p].name, out[p].id, &keys[p])
            invariant
                p <= out.len(),
                out@.len() == keys@.len(),
                key@ == lowercase(t.name@),
                forall|k: int| 0 <= k < keys@.len() ==> (#[trigger] keys@[k])@ == lowercase(out@[k].name@),
                forall|a: int| 0 <= a < p ==> !entry_listed_before(t.name@, t.id, (#[trigger] out@[a]).name@, out@[a].id),
            decreases out.len() - p,
        {
            p += 1;
        }
        let ghost old_out = out@;
        let ghost old_keys = keys@;
        proof {
            assert forall|a: int, b: int| 0 <= a < b < old_out.len() + 1 implies !entry_listed_before(
                (#[trigger] old_out.insert(p as int, t)[b]).name@,
                old_out.insert(p as int, t)[b].id,
                (#[trigger] old_out.insert(p as int, t)[a]).name@,
                old_out.insert(p as int, t)[a].id,
            ) by {
                let n = old_out.insert(p as int, t);
                if b < p {
                    assert(n[a] == old_out[a] && n[b] == old_out[b]);
                } else if b == p {
                    assert(n[a] == old_out[a]);
                } else if a == p {
                    assert(n[b] == old_out[b - 1]);
                    let (x, y, z) = (old_out[b - 1], t, old_out[p as int]);
                    assert(entry_listed_before(y.name@, y.id, z.name@, z.id));
                    lemma_entry_order(x.name@, x.id, y.name@, y.id, z.name@, z.id);
                    lemma_entry_order(z.name@, z.id, z.name@, z.id, z.name@, z.id);
                } else if a < p {
                    assert(n[a] == old_out[a] && n[b] == old_out[b - 1]);
                } else {
                    assert(n[a] == old_out[a - 1] && n[b] == old_out[b - 1]);
                }
            }
            assert(src.take(i + 1) == src.take(i as int).push(src[i as int]));
            assert(t == src[i as int]);
            vstd::seq_lib::to_multiset_insert(old_out, p as int, t);
            assert(src.skip(i + 1) == src.skip(i as int).drop_first());
        }
        out.insert(p, t);
        keys.insert(p, key);
        i += 1;
        proof {
            assert forall|k: int| 0 <= k < keys@.len() implies (#[trigger] keys@[k])@ == lowercase(
                out@[k].name@,
            ) by {
                if k < p {
                    assert(keys@[k] == old_keys[k] && out@[k] == old_out[k]);
                } else if k > p {
                    assert(keys@[k] == old_keys[k - 1] && out@[k] == old_out[k - 1]);
                }
            }
        }
    }
    assert(src.take(src.len() as int) == src);
    out
}

/// The staff list in the order in which it is shown: the same entries, by
/// lower-case name, then by id.
pub fn sort_staff_list(entries: Vec<StaffListEntry>) -> (r: Vec<StaffListEntry>)
    ensures
        r@.to_multiset() == entries@.to_multiset(),
        r@.len() == entries@.len(),
        forall|a: int, b: int| 0 <= a < b < r@.len() ==> !entry_listed_before(r@[b].name@, r@[b].id, r@[a].name@, r@[a].id),
{
    let ghost src = entries@;
    assert(src.len() == entries.len());
    let mut rest = entries;
    let mut out: Vec<StaffListEntry> = Vec::new();
    let mut keys: Vec<Vec<char>> = Vec::new();
    let mut i: usize = 0;
    while rest.len() > 0
        invariant
            i <= src.len(),
            src.len() <= usize::MAX,
            rest@ == src.skip(i as int),
            out@.len() == keys@.len(),
            out@.len() == i,
            out@.to_multiset() == src.take(i as int).to_multiset(),
            forall|k: int| 0 <= k < keys@.len() ==> (#[trigger] keys@[k])@ == lowercase(out@[k].name@),
            forall|a: int, b: int| 0 <= a < b < out@.len() ==> !entry_listed_before(out@[b].name@, out@[b].id, out@[a].name@, out@[a].id),
        decreases rest.len(),
    {
        let t = rest.remove(0);
        let key_text = to_lowercase(t.name.as_str());
        let key = chars_of(key_text.as_str());
        let mut p: usize = 0;
        while p < out.len() && !entry_precedes(&t.name, t.id, &key, &out[p].name, out[p].id, &keys[p])
            invariant
                p <= out.len(),
                out@.len() == keys@.len(),
                key@ == lowercase(t.name@),
                forall|k: int| 0 <= k < keys@.len() ==> (#[trigger] keys@[k])@ == lowercase(out@[k].name@),
                forall|a: int| 0 <= a < p ==> !entry_listed_before(t.name@, t.id, (#[trigger] out@[a]).name@, out@[a].id),
            decreases out.len() - p,
        {
            p += 1;
        }
        let ghost old_out = out@;
        let ghost old_keys = keys@;
        proof {
            assert forall|a: int, b: int| 0 <= a < b < old_out.len() + 1 implies !entry_listed_before(
                (#[trigger] old_out.insert(p as int, t)[b]).name@,
                old_out.insert(p as int, t)[b].id,
                (#[trigger] old_out.insert(p as int, t)[a]).name@,
                old_out.insert(p as int, t)[a].id,
            ) by {
                let n = old_out.insert(p as int, t);
                if b < p {
                    assert(n[a] == old_out[a] && n[b] == old_out[b]);
                } else if b == p {
                    assert(n[a] == old_out[a]);
                } else if a == p {
                    assert(n[b] == old_out[b - 1]);
                    let (x, y, z) = (old_out[b - 1], t, old_out[p as int]);
                    assert(entry_listed_before(y.name@, y.id, z.name@, z.id));
                    lemma_entry_order(x.name@, x.id, y.name@, y.id, z.name@, z.id);
                    lemma_entry_order(z.name@, z.id, z.name@, z.id, z.name@, z.id);
                } else if a < p {
                    assert(n[a] == old_out[a] && n[b] == old_out[b - 1]);
                } else {
                    assert(n[a] == old_out[a - 1] && n[b] == old_out[b - 1]);
                }
            }
            assert(src.take(i + 1) == src.take(i as int).push(src[i as int]));
            assert(t == src[i as int]);
            vstd::seq_lib::to_multiset_insert(old_out, p as int, t);
            assert(src.skip(i + 1) == src.skip(i as int).drop_first());
        }
        out.insert(p, t);
        keys.insert(p, key);
        i += 1;
        proof {
            assert forall|k: int| 0 <= k < keys@.len() implies (#[trigger] keys@[k])@ == lowercase(
                out@[k].name@,
            ) by {
                if k < p {
                    assert(keys@[k] == old_keys[k] && out@[k] == old_out[k]);
                } else if k > p {
                    assert(keys@[k] == old_keys[k - 1] && out@[k] == old_out[k - 1]);
                }
            }
        }
    }
    assert(src.take(src.len() as int) == src);
    out
}

} // verus!
