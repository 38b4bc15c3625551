//! What the editor reads back from the Bridge's responses: splitting a
//! response on its separators gives each field of each entry in its fixed
//! place, numbers as their decimal text and free text decoding from
//! hexadecimal to the entry's own text.

use vstd::prelude::*;
use crate::error::BridgeError;
use crate::hex::{hex_joined, hex_decoded, hex_text, lemma_hex_round_trip, lemma_hex_text_excludes};
use crate::responses::{
    global_league_competition_response, global_leagues_response, global_team_records_response,
    BRIDGE_VERSION, TFM2_TARGET_VERSION, contract_defaults_response, flag_text, mastery_probe_response, player_condition_response,
    recruitment_response, ContractDefaults, PlayerConditionSnapshot, list_response, player_entry_fields, player_response_fields, player_row, player_rows,
    staff_entry_fields, staff_response_fields, staff_row, staff_rows, team_entry_fields,
    team_management_fields, team_row, team_rows, PlayerListEntry, PlayerSnapshot, StaffListEntry,
    StaffSnapshot, TeamListEntry, TeamManagementSnapshot,
};
use crate::text::{
    decimal_text, join_pieces, lemma_decimal_text_no, lemma_join_contains, lemma_split_join,
    split_pieces,
};

verus! {

/// A text that holds none of the separators `:`, `;` and `|`.
pub open spec fn wire_plain(s: Seq<char>) -> bool {
    !s.contains(':') && !s.contains(';') && !s.contains('|')
}

proof fn lemma_num_plain(n: nat)
    ensures
        wire_plain(decimal_text(n)),
{
    lemma_decimal_text_no(n, ':');
    lemma_decimal_text_no(n, ';');
    lemma_decimal_text_no(n, '|');
}

proof fn lemma_hex_plain(s: Seq<char>)
    ensures
        wire_plain(hex_text(s)),
{
    lemma_hex_text_excludes(s, ':');
    lemma_hex_text_excludes(s, ';');
    lemma_hex_text_excludes(s, '|');
}

proof fn lemma_flag_plain(b: bool)
    ensures
        wire_plain(crate::responses::flag_text(b)),
{
    let t = crate::responses::flag_text(b);
    assert(t.len() == 1);
    assert(t[0] == '1' || t[0] == '0');
}

proof fn lemma_literal_plain_ok()
    ensures
        wire_plain("OK"@),
{
    reveal_strlit("OK");
    let t = "OK"@;
    assert forall|i: int| 0 <= i < t.len() implies t[i] != ':' && t[i] != ';' && t[i] != '|' by {}
}

proof fn lemma_literal_plain_players()
    ensures
        wire_plain("PLAYERS"@),
{
    reveal_strlit("PLAYERS");
    let t = "PLAYERS"@;
    assert forall|i: int| 0 <= i < t.len() implies t[i] != ':' && t[i] != ';' && t[i] != '|' by {}
}

proof fn lemma_literal_plain_staffs()
    ensures
        wire_plain("STAFFS"@),
{
    reveal_strlit("STAFFS");
    let t = "STAFFS"@;
    assert forall|i: int| 0 <= i < t.len() implies t[i] != ':' && t[i] != ';' && t[i] != '|' by {}
}

proof fn lemma_literal_plain_teams()
    ensures
        wire_plain("TEAMS"@),
{
    reveal_strlit("TEAMS");
    let t = "TEAMS"@;
    assert forall|i: int| 0 <= i < t.len() implies t[i] != ':' && t[i] != ';' && t[i] != '|' by {}
}

proof fn lemma_literal_plain_player()
    ensures
        wire_plain("PLAYER"@),
{
    reveal_strlit("PLAYER");
    let t = "PLAYER"@;
    assert forall|i: int| 0 <= i < t.len() implies t[i] != ':' && t[i] != ';' && t[i] != '|' by {}
}

proof fn lemma_literal_plain_staff()
    ensures
        wire_plain("STAFF"@),
{
    reveal_strlit("STAFF");
    let t = "STAFF"@;
    assert forall|i: int| 0 <= i < t.len() implies t[i] != ':' && t[i] != ';' && t[i] != '|' by {}
}

proof fn lemma_literal_plain_team_management()
    ensures
        wire_plain("TEAM_MANAGEMENT"@),
{
    reveal_strlit("TEAM_MANAGEMENT");
    let t = "TEAM_MANAGEMENT"@;
    assert forall|i: int| 0 <= i < t.len() implies t[i] != ':' && t[i] != ';' && t[i] != '|' by {}
}

/// The header of a list response and its rows, read back.
proof fn lemma_list_pieces(kind: Seq<char>, count: nat, rs: Seq<Seq<char>>)
    requires
        wire_plain(kind),
        rs.len() >= 1,
        forall|j: int| 0 <= j < rs.len() ==> !(#[trigger] rs[j]).contains(';') && !rs[j].contains('|'),
    ensures
        ({
        let top = split_pieces(list_response(kind, count, join_pieces(rs, ';')), '|');
        &&& top.len() == 4
        &&& top[0] == "OK"@
        &&& top[1] == kind
        &&& top[2] == decimal_text(count)
        &&& split_pieces(top[3], ';') == rs
        }),
{
    lemma_split_join(rs, ';');
    lemma_join_contains(rs, ';', '|');
    lemma_literal_plain_ok();
    lemma_num_plain(count);
    let top = seq!["OK"@, kind, decimal_text(count), join_pieces(rs, ';')];
    assert(top.len() == 4);
    assert forall|k: int| 0 <= k < top.len() implies !(#[trigger] top[k]).contains('|') by {}
    lemma_split_join(top, '|');
}

proof fn lemma_player_fields_plain(p: PlayerListEntry)
    ensures
        forall|k: int| 0 <= k < player_entry_fields(p).len() ==> wire_plain(#[trigger] player_entry_fields(p)[k]),
        player_entry_fields(p).len() == 24,
{
    let fs = player_entry_fields(p);
    assert forall|k: int| 0 <= k < fs.len() implies wire_plain(#[trigger] fs[k]) by {
        if k == 0 {
            lemma_num_plain(p.id as nat);
        } else if k == 1 {
            lemma_hex_plain(p.name@);
        } else if k == 2 {
            lemma_hex_plain(p.age@);
        } else if k == 3 {
            lemma_hex_plain(p.team@);
        } else if k == 4 {
            lemma_hex_plain(p.region@);
        } else if k == 5 {
            lemma_hex_plain(p.position@);
        } else if k == 6 {
            lemma_hex_plain(p.actual_rating@);
        } else if k == 7 {
            lemma_hex_plain(p.potential_rating@);
        } else if k == 8 {
            lemma_hex_plain(p.actual_potential@);
        } else if k == 9 {
            lemma_hex_plain(p.annual_salary@);
        } else if k == 10 {
            lemma_hex_plain(p.transfer_fee@);
        } else if k == 11 {
            lemma_hex_plain(p.contract_end_date@);
        } else if k == 12 {
            lemma_hex_plain(p.last_hit@);
        } else if k == 13 {
            lemma_hex_plain(p.skill_avoid@);
        } else if k == 14 {
            lemma_hex_plain(p.skill_hit@);
        } else if k == 15 {
            lemma_hex_plain(p.control_speed@);
        } else if k == 16 {
            lemma_hex_plain(p.positioning@);
        } else if k == 17 {
            lemma_hex_plain(p.judgement@);
        } else if k == 18 {
            lemma_hex_plain(p.mental@);
        } else if k == 19 {
            lemma_hex_plain(p.concentration@);
        } else if k == 20 {
            lemma_hex_plain(p.order@);
        } else if k == 21 {
            lemma_hex_plain(p.roaming@);
        } else if k == 22 {
            lemma_hex_plain(p.aggressive@);
        } else if k == 23 {
            lemma_hex_plain(p.ego@);
        }
    }
}

proof fn lemma_player_row_fields(p: PlayerListEntry)
    ensures
        split_pieces(player_row(p), ':') == player_entry_fields(p),
        !player_row(p).contains(';'),
        !player_row(p).contains('|'),
{
    reveal(player_row);
    lemma_player_fields_plain(p);
    let fs = player_entry_fields(p);
    lemma_split_join(fs, ':');
    lemma_join_contains(fs, ':', ';');
    lemma_join_contains(fs, ':', '|');
}

#[verifier::rlimit(100)]
#[verifier::spinoff_prover]
proof fn lemma_player_row_reads(p: PlayerListEntry)
    ensures
        ({
        let f = split_pieces(player_row(p), ':');
        &&& f.len() == 24
        &&& f[0] == decimal_text(p.id as nat)
        &&& hex_decoded(f[1]) == Ok::<Seq<char>, BridgeError>(p.name@)
        &&& hex_decoded(f[2]) == Ok::<Seq<char>, BridgeError>(p.age@)
        &&& hex_decoded(f[3]) == Ok::<Seq<char>, BridgeError>(p.team@)
        &&& hex_decoded(f[4]) == Ok::<Seq<char>, BridgeError>(p.region@)
        &&& hex_decoded(f[5]) == Ok::<Seq<char>, BridgeError>(p.position@)
        &&& hex_decoded(f[6]) == Ok::<Seq<char>, BridgeError>(p.actual_rating@)
        &&& hex_decoded(f[7]) == Ok::<Seq<char>, BridgeError>(p.potential_rating@)
        &&& hex_decoded(f[8]) == Ok::<Seq<char>, BridgeError>(p.actual_potential@)
        &&& hex_decoded(f[9]) == Ok::<Seq<char>, BridgeError>(p.annual_salary@)
        &&& hex_decoded(f[10]) == Ok::<Seq<char>, BridgeError>(p.transfer_fee@)
        &&& hex_decoded(f[11]) == Ok::<Seq<char>, BridgeError>(p.contract_end_date@)
        &&& hex_decoded(f[12]) == Ok::<Seq<char>, BridgeError>(p.last_hit@)
        &&& hex_decoded(f[13]) == Ok::<Seq<char>, BridgeError>(p.skill_avoid@)
        &&& hex_decoded(f[14]) == Ok::<Seq<char>, BridgeError>(p.skill_hit@)
        &&& hex_decoded(f[15]) == Ok::<Seq<char>, BridgeError>(p.control_speed@)
        &&& hex_decoded(f[16]) == Ok::<Seq<char>, BridgeError>(p.positioning@)
        &&& hex_decoded(f[17]) == Ok::<Seq<char>, BridgeError>(p.judgement@)
        &&& hex_decoded(f[18]) == Ok::<Seq<char>, BridgeError>(p.mental@)
        &&& hex_decoded(f[19]) == Ok::<Seq<char>, BridgeError>(p.concentration@)
        &&& hex_decoded(f[20]) == Ok::<Seq<char>, BridgeError>(p.order@)
        &&& hex_decoded(f[21]) == Ok::<Seq<char>, BridgeError>(p.roaming@)
        &&& hex_decoded(f[22]) == Ok::<Seq<char>, BridgeError>(p.aggressive@)
        &&& hex_decoded(f[23]) == Ok::<Seq<char>, BridgeError>(p.ego@)
        }),
{
    lemma_player_row_fields(p);
    let f = player_entry_fields(p);
    assert(f.len() == 24);
    assert(f[0] == decimal_text(p.id as nat));
    lemma_hex_round_trip(p.name@);
    assert(hex_decoded(f[1]) == Ok::<Seq<char>, BridgeError>(p.name@));
    lemma_hex_round_trip(p.age@);
    assert(hex_decoded(f[2]) == Ok::<Seq<char>, BridgeError>(p.age@));
    lemma_hex_round_trip(p.team@);
    assert(hex_decoded(f[3]) == Ok::<Seq<char>, BridgeError>(p.team@));
    lemma_hex_round_trip(p.region@);
    assert(hex_decoded(f[4]) == Ok::<Seq<char>, BridgeError>(p.region@));
    lemma_hex_round_trip(p.position@);
    assert(hex_decoded(f[5]) == Ok::<Seq<char>, BridgeError>(p.position@));
    lemma_hex_round_trip(p.actual_rating@);
    assert(hex_decoded(f[6]) == Ok::<Seq<char>, BridgeError>(p.actual_rating@));
    lemma_hex_round_trip(p.potential_rating@);
    assert(hex_decoded(f[7]) == Ok::<Seq<char>, BridgeError>(p.potential_rating@));
    lemma_hex_round_trip(p.actual_potential@);
    assert(hex_decoded(f[8]) == Ok::<Seq<char>, BridgeError>(p.actual_potential@));
    lemma_hex_round_trip(p.annual_salary@);
    assert(hex_decoded(f[9]) == Ok::<Seq<char>, BridgeError>(p.annual_salary@));
    lemma_hex_round_trip(p.transfer_fee@);
    assert(hex_decoded(f[10]) == Ok::<Seq<char>, BridgeError>(p.transfer_fee@));
    lemma_hex_round_trip(p.contract_end_date@);
    assert(hex_decoded(f[11]) == Ok::<Seq<char>, BridgeError>(p.contract_end_date@));
    lemma_hex_round_trip(p.last_hit@);
    assert(hex_decoded(f[12]) == Ok::<Seq<char>, BridgeError>(p.last_hit@));
    lemma_hex_round_trip(p.skill_avoid@);
    assert(hex_decoded(f[13]) == Ok::<Seq<char>, BridgeError>(p.skill_avoid@));
    lemma_hex_round_trip(p.skill_hit@);
    assert(hex_decoded(f[14]) == Ok::<Seq<char>, BridgeError>(p.skill_hit@));
    lemma_hex_round_trip(p.control_speed@);
    assert(hex_decoded(f[15]) == Ok::<Seq<char>, BridgeError>(p.control_speed@));
    lemma_hex_round_trip(p.positioning@);
    assert(hex_decoded(f[16]) == Ok::<Seq<char>, BridgeError>(p.positioning@));
    lemma_hex_round_trip(p.judgement@);
    assert(hex_decoded(f[17]) == Ok::<Seq<char>, BridgeError>(p.judgement@));
    lemma_hex_round_trip(p.mental@);
    assert(hex_decoded(f[18]) == Ok::<Seq<char>, BridgeError>(p.mental@));
    lemma_hex_round_trip(p.concentration@);
    assert(hex_decoded(f[19]) == Ok::<Seq<char>, BridgeError>(p.concentration@));
    lemma_hex_round_trip(p.order@);
    assert(hex_decoded(f[20]) == Ok::<Seq<char>, BridgeError>(p.order@));
    lemma_hex_round_trip(p.roaming@);
    assert(hex_decoded(f[21]) == Ok::<Seq<char>, BridgeError>(p.roaming@));
    lemma_hex_round_trip(p.aggressive@);
    assert(hex_decoded(f[22]) == Ok::<Seq<char>, BridgeError>(p.aggressive@));
    lemma_hex_round_trip(p.ego@);
    assert(hex_decoded(f[23]) == Ok::<Seq<char>, BridgeError>(p.ego@));
}

/// An `OK|PLAYERS` response splits into `OK`, `PLAYERS`, the count and one row per player; each row's fields are the player's id, then name, age, team, region, position, actual rating, potential rating, actual potential, annual salary, transfer fee, contract end date and the twelve stats in order, each decoding to the player's own text.
pub proof fn lemma_players_response_reads_back(ps: Seq<PlayerListEntry>, i: int)
    requires
        0 <= i < ps.len(),
    ensures
        ({
        let top = split_pieces(list_response("PLAYERS"@, ps.len(), player_rows(ps)), '|');
        let rows = split_pieces(top[3], ';');
        let f = split_pieces(rows[i], ':');
        &&& top.len() == 4
        &&& top[0] == "OK"@
        &&& top[1] == "PLAYERS"@
        &&& top[2] == decimal_text(ps.len())
        &&& rows.len() == ps.len()
        &&& f.len() == 24
        &&& f[0] == decimal_text(ps[i].id as nat)
        &&& hex_decoded(f[1]) == Ok::<Seq<char>, BridgeError>(ps[i].name@)
        &&& hex_decoded(f[2]) == Ok::<Seq<char>, BridgeError>(ps[i].age@)
        &&& hex_decoded(f[3]) == Ok::<Seq<char>, BridgeError>(ps[i].team@)
        &&& hex_decoded(f[4]) == Ok::<Seq<char>, BridgeError>(ps[i].region@)
        &&& hex_decoded(f[5]) == Ok::<Seq<char>, BridgeError>(ps[i].position@)
        &&& hex_decoded(f[6]) == Ok::<Seq<char>, BridgeError>(ps[i].actual_rating@)
        &&& hex_decoded(f[7]) == Ok::<Seq<char>, BridgeError>(ps[i].potential_rating@)
        &&& hex_decoded(f[8]) == Ok::<Seq<char>, BridgeError>(ps[i].actual_potential@)
        &&& hex_decoded(f[9]) == Ok::<Seq<char>, BridgeError>(ps[i].annual_salary@)
        &&& hex_decoded(f[10]) == Ok::<Seq<char>, BridgeError>(ps[i].transfer_fee@)
        &&& hex_decoded(f[11]) == Ok::<Seq<char>, BridgeError>(ps[i].contract_end_date@)
        &&& hex_decoded(f[12]) == Ok::<Seq<char>, BridgeError>(ps[i].last_hit@)
        &&& hex_decoded(f[13]) == Ok::<Seq<char>, BridgeError>(ps[i].skill_avoid@)
        &&& hex_decoded(f[14]) == Ok::<Seq<char>, BridgeError>(ps[i].skill_hit@)
        &&& hex_decoded(f[15]) == Ok::<Seq<char>, BridgeError>(ps[i].control_speed@)
        &&& hex_decoded(f[16]) == Ok::<Seq<char>, BridgeError>(ps[i].positioning@)
        &&& hex_decoded(f[17]) == Ok::<Seq<char>, BridgeError>(ps[i].judgement@)
        &&& hex_decoded(f[18]) == Ok::<Seq<char>, BridgeError>(ps[i].mental@)
        &&& hex_decoded(f[19]) == Ok::<Seq<char>, BridgeError>(ps[i].concentration@)
        &&& hex_decoded(f[20]) == Ok::<Seq<char>, BridgeError>(ps[i].order@)
        &&& hex_decoded(f[21]) == Ok::<Seq<char>, BridgeError>(ps[i].roaming@)
        &&& hex_decoded(f[22]) == Ok::<Seq<char>, BridgeError>(ps[i].aggressive@)
        &&& hex_decoded(f[23]) == Ok::<Seq<char>, BridgeError>(ps[i].ego@)
        }),
{
    let rs = ps.map_values(|x: PlayerListEntry| player_row(x));
    assert forall|j: int| 0 <= j < rs.len() implies !(#[trigger] rs[j]).contains(';') && !rs[j].contains('|') by {
        lemma_player_row_fields(ps[j]);
    }
    lemma_literal_plain_players();
    lemma_list_pieces("PLAYERS"@, ps.len(), rs);
    assert(player_rows(ps) == join_pieces(rs, ';'));
    assert(rs[i] == player_row(ps[i]));
    lemma_player_row_reads(ps[i]);
}

proof fn lemma_staff_fields_plain(s: StaffListEntry)
    ensures
        forall|k: int| 0 <= k < staff_entry_fields(s).len() ==> wire_plain(#[trigger] staff_entry_fields(s)[k]),
        staff_entry_fields(s).len() == 18,
{
    let fs = staff_entry_fields(s);
    assert forall|k: int| 0 <= k < fs.len() implies wire_plain(#[trigger] fs[k]) by {
        if k == 0 {
            lemma_num_plain(s.id as nat);
        } else if k == 1 {
            lemma_hex_plain(s.name@);
        } else if k == 2 {
            lemma_hex_plain(s.age@);
        } else if k == 3 {
            lemma_hex_plain(s.team@);
        } else if k == 4 {
            lemma_hex_plain(s.role@);
        } else if k == 5 {
            lemma_hex_plain(s.banpick@);
        } else if k == 6 {
            lemma_hex_plain(s.strategy@);
        } else if k == 7 {
            lemma_hex_plain(s.negotiation@);
        } else if k == 8 {
            lemma_hex_plain(s.judge_ability@);
        } else if k == 9 {
            lemma_hex_plain(s.judge_potential@);
        } else if k == 10 {
            lemma_hex_plain(s.feedback@);
        } else if k == 11 {
            lemma_hex_plain(s.power_analysis@);
        } else if k == 12 {
            lemma_hex_plain(s.control_coaching@);
        } else if k == 13 {
            lemma_hex_plain(s.judgment_coaching@);
        } else if k == 14 {
            lemma_hex_plain(s.mental_coaching@);
        } else if k == 15 {
            lemma_hex_plain(s.annual_salary@);
        } else if k == 16 {
            lemma_hex_plain(s.contract_end_date@);
        } else if k == 17 {
            lemma_hex_plain(s.communication@);
        }
    }
}

proof fn lemma_staff_row_fields(s: StaffListEntry)
    ensures
        split_pieces(staff_row(s), ':') == staff_entry_fields(s),
        !staff_row(s).contains(';'),
        !staff_row(s).contains('|'),
{
    reveal(staff_row);
    lemma_staff_fields_plain(s);
    let fs = staff_entry_fields(s);
    lemma_split_join(fs, ':');
    lemma_join_contains(fs, ':', ';');
    lemma_join_contains(fs, ':', '|');
}

#[verifier::rlimit(100)]
#[verifier::spinoff_prover]
proof fn lemma_staff_row_reads(s: StaffListEntry)
    ensures
        ({
        let f = split_pieces(staff_row(s), ':');
        &&& f.len() == 18
        &&& f[0] == decimal_text(s.id as nat)
        &&& hex_decoded(f[1]) == Ok::<Seq<char>, BridgeError>(s.name@)
        &&& hex_decoded(f[2]) == Ok::<Seq<char>, BridgeError>(s.age@)
        &&& hex_decoded(f[3]) == Ok::<Seq<char>, BridgeError>(s.team@)
        &&& hex_decoded(f[4]) == Ok::<Seq<char>, BridgeError>(s.role@)
        &&& hex_decoded(f[5]) == Ok::<Seq<char>, BridgeError>(s.banpick@)
        &&& hex_decoded(f[6]) == Ok::<Seq<char>, BridgeError>(s.strategy@)
        &&& hex_decoded(f[7]) == Ok::<Seq<char>, BridgeError>(s.negotiation@)
        &&& hex_decoded(f[8]) == Ok::<Seq<char>, BridgeError>(s.judge_ability@)
        &&& hex_decoded(f[9]) == Ok::<Seq<char>, BridgeError>(s.judge_potential@)
        &&& hex_decoded(f[10]) == Ok::<Seq<char>, BridgeError>(s.feedback@)
        &&& hex_decoded(f[11]) == Ok::<Seq<char>, BridgeError>(s.power_analysis@)
        &&& hex_decoded(f[12]) == Ok::<Seq<char>, BridgeError>(s.control_coaching@)
        &&& hex_decoded(f[13]) == Ok::<Seq<char>, BridgeError>(s.judgment_coaching@)
        &&& hex_decoded(f[14]) == Ok::<Seq<char>, BridgeError>(s.mental_coaching@)
        &&& hex_decoded(f[15]) == Ok::<Seq<char>, BridgeError>(s.annual_salary@)
        &&& hex_decoded(f[16]) == Ok::<Seq<char>, BridgeError>(s.contract_end_date@)
        &&& hex_decoded(f[17]) == Ok::<Seq<char>, BridgeError>(s.communication@)
        }),
{
    lemma_staff_row_fields(s);
    let f = staff_entry_fields(s);
    assert(f.len() == 18);
    assert(f[0] == decimal_text(s.id as nat));
    lemma_hex_round_trip(s.name@);
    assert(hex_decoded(f[1]) == Ok::<Seq<char>, BridgeError>(s.name@));
    lemma_hex_round_trip(s.age@);
    assert(hex_decoded(f[2]) == Ok::<Seq<char>, BridgeError>(s.age@));
    lemma_hex_round_trip(s.team@);
    assert(hex_decoded(f[3]) == Ok::<Seq<char>, BridgeError>(s.team@));
    lemma_hex_round_trip(s.role@);
    assert(hex_decoded(f[4]) == Ok::<Seq<char>, BridgeError>(s.role@));
    lemma_hex_round_trip(s.banpick@);
    assert(hex_decoded(f[5]) == Ok::<Seq<char>, BridgeError>(s.banpick@));
    lemma_hex_round_trip(s.strategy@);
    assert(hex_decoded(f[6]) == Ok::<Seq<char>, BridgeError>(s.strategy@));
    lemma_hex_round_trip(s.negotiation@);
    assert(hex_decoded(f[7]) == Ok::<Seq<char>, BridgeError>(s.negotiation@));
    lemma_hex_round_trip(s.judge_ability@);
    assert(hex_decoded(f[8]) == Ok::<Seq<char>, BridgeError>(s.judge_ability@));
    lemma_hex_round_trip(s.judge_potential@);
    assert(hex_decoded(f[9]) == Ok::<Seq<char>, BridgeError>(s.judge_potential@));
    lemma_hex_round_trip(s.feedback@);
    assert(hex_decoded(f[10]) == Ok::<Seq<char>, BridgeError>(s.feedback@));
    lemma_hex_round_trip(s.power_analysis@);
    assert(hex_decoded(f[11]) == Ok::<Seq<char>, BridgeError>(s.power_analysis@));
    lemma_hex_round_trip(s.control_coaching@);
    assert(hex_decoded(f[12]) == Ok::<Seq<char>, BridgeError>(s.control_coaching@));
    lemma_hex_round_trip(s.judgment_coaching@);
    assert(hex_decoded(f[13]) == Ok::<Seq<char>, BridgeError>(s.judgment_coaching@));
    lemma_hex_round_trip(s.mental_coaching@);
    assert(hex_decoded(f[14]) == Ok::<Seq<char>, BridgeError>(s.mental_coaching@));
    lemma_hex_round_trip(s.annual_salary@);
    assert(hex_decoded(f[15]) == Ok::<Seq<char>, BridgeError>(s.annual_salary@));
    lemma_hex_round_trip(s.contract_end_date@);
    assert(hex_decoded(f[16]) == Ok::<Seq<char>, BridgeError>(s.contract_end_date@));
    lemma_hex_round_trip(s.communication@);
    assert(hex_decoded(f[17]) == Ok::<Seq<char>, BridgeError>(s.communication@));
}

/// An `OK|STAFFS` response splits into `OK`, `STAFFS`, the count and one row per staff member; each row's fields are the id, then name, age, team, role, the ten abilities, annual salary, contract end date and communication in order, each decoding to the staff member's own text.
pub proof fn lemma_staffs_response_reads_back(ps: Seq<StaffListEntry>, i: int)
    requires
        0 <= i < ps.len(),
    ensures
        ({
        let top = split_pieces(list_response("STAFFS"@, ps.len(), staff_rows(ps)), '|');
        let rows = split_pieces(top[3], ';');
        let f = split_pieces(rows[i], ':');
        &&& top.len() == 4
        &&& top[0] == "OK"@
        &&& top[1] == "STAFFS"@
        &&& top[2] == decimal_text(ps.len())
        &&& rows.len() == ps.len()
        &&& f.len() == 18
        &&& f[0] == decimal_text(ps[i].id as nat)
        &&& hex_decoded(f[1]) == Ok::<Seq<char>, BridgeError>(ps[i].name@)
        &&& hex_decoded(f[2]) == Ok::<Seq<char>, BridgeError>(ps[i].age@)
        &&& hex_decoded(f[3]) == Ok::<Seq<char>, BridgeError>(ps[i].team@)
        &&& hex_decoded(f[4]) == Ok::<Seq<char>, BridgeError>(ps[i].role@)
        &&& hex_decoded(f[5]) == Ok::<Seq<char>, BridgeError>(ps[i].banpick@)
        &&& hex_decoded(f[6]) == Ok::<Seq<char>, BridgeError>(ps[i].strategy@)
        &&& hex_decoded(f[7]) == Ok::<Seq<char>, BridgeError>(ps[i].negotiation@)
        &&& hex_decoded(f[8]) == Ok::<Seq<char>, BridgeError>(ps[i].judge_ability@)
        &&& hex_decoded(f[9]) == Ok::<Seq<char>, BridgeError>(ps[i].judge_potential@)
        &&& hex_decoded(f[10]) == Ok::<Seq<char>, BridgeError>(ps[i].feedback@)
        &&& hex_decoded(f[11]) == Ok::<Seq<char>, BridgeError>(ps[i].power_analysis@)
        &&& hex_decoded(f[12]) == Ok::<Seq<char>, BridgeError>(ps[i].control_coaching@)
        &&& hex_decoded(f[13]) == Ok::<Seq<char>, BridgeError>(ps[i].judgment_coaching@)
        &&& hex_decoded(f[14]) == Ok::<Seq<char>, BridgeError>(ps[i].mental_coaching@)
        &&& hex_decoded(f[15]) == Ok::<Seq<char>, BridgeError>(ps[i].annual_salary@)
        &&& hex_decoded(f[16]) == Ok::<Seq<char>, BridgeError>(ps[i].contract_end_date@)
        &&& hex_decoded(f[17]) == Ok::<Seq<char>, BridgeError>(ps[i].communication@)
        }),
{
    let rs = ps.map_values(|x: StaffListEntry| staff_row(x));
    assert forall|j: int| 0 <= j < rs.len() implies !(#[trigger] rs[j]).contains(';') && !rs[j].contains('|') by {
        lemma_staff_row_fields(ps[j]);
    }
    lemma_literal_plain_staffs();
    lemma_list_pieces("STAFFS"@, ps.len(), rs);
    assert(staff_rows(ps) == join_pieces(rs, ';'));
    assert(rs[i] == staff_row(ps[i]));
    lemma_staff_row_reads(ps[i]);
}

proof fn lemma_team_fields_plain(t: TeamListEntry)
    requires
        (match t.roster_rating { Some(s) => wire_plain(s@), None => true }),
        wire_plain(t.total_balance@),
        wire_plain(t.transfer_budget@),
        wire_plain(t.salary_budget@),
        wire_plain(t.stadium_capacity@),
        wire_plain(t.total_home_attendance@),
        wire_plain(t.home_match_count@),
        wire_plain(t.total_entrance_income@),
        wire_plain(t.popularity@),
        wire_plain(t.fan_count@),
        wire_plain(t.fan_momentum@),
        wire_plain(t.welfare@),
    ensures
        forall|k: int| 0 <= k < team_entry_fields(t).len() ==> wire_plain(#[trigger] team_entry_fields(t)[k]),
        team_entry_fields(t).len() == 26,
{
    let fs = team_entry_fields(t);
    assert forall|k: int| 0 <= k < fs.len() implies wire_plain(#[trigger] fs[k]) by {
        if k == 0 {
            lemma_num_plain(t.id as nat);
        } else if k == 1 {
            lemma_hex_plain(t.display_name@);
        } else if k == 2 {
            lemma_hex_plain(t.manager_name@);
        } else if k == 3 {
            lemma_num_plain(t.league_id as nat);
        } else if k == 4 {
            lemma_flag_plain(t.is_player_team);
        } else if k == 5 {
            lemma_num_plain(t.roster_size as nat);
        } else if k == 6 {
            lemma_num_plain(t.staff_count as nat);
        } else if k == 7 {
        } else if k == 8 {
            lemma_hex_plain(t.merchandise_facility_grade@);
        } else if k == 9 {
            lemma_hex_plain(t.stadium_grade@);
        } else if k == 10 {
            lemma_hex_plain(t.training_facility_grade@);
        } else if k == 11 {
        } else if k == 12 {
        } else if k == 13 {
        } else if k == 14 {
            lemma_hex_plain(t.stadium_name@);
        } else if k == 15 {
        } else if k == 16 {
        } else if k == 17 {
        } else if k == 18 {
        } else if k == 19 {
        } else if k == 20 {
            lemma_hex_plain(t.fan_expectation@);
        } else if k == 21 {
            lemma_hex_plain(t.fan_satisfaction@);
        } else if k == 22 {
        } else if k == 23 {
        } else if k == 24 {
            lemma_hex_plain(t.gaming_house_level@);
        } else if k == 25 {
        }
    }
}

proof fn lemma_team_row_fields(t: TeamListEntry)
    requires
        (match t.roster_rating { Some(s) => wire_plain(s@), None => true }),
        wire_plain(t.total_balance@),
        wire_plain(t.transfer_budget@),
        wire_plain(t.salary_budget@),
        wire_plain(t.stadium_capacity@),
        wire_plain(t.total_home_attendance@),
        wire_plain(t.home_match_count@),
        wire_plain(t.total_entrance_income@),
        wire_plain(t.popularity@),
        wire_plain(t.fan_count@),
        wire_plain(t.fan_momentum@),
        wire_plain(t.welfare@),
    ensures
        split_pieces(team_row(t), ':') == team_entry_fields(t),
        !team_row(t).contains(';'),
        !team_row(t).contains('|'),
{
    reveal(team_row);
    lemma_team_fields_plain(t);
    let fs = team_entry_fields(t);
    lemma_split_join(fs, ':');
    lemma_join_contains(fs, ':', ';');
    lemma_join_contains(fs, ':', '|');
}

#[verifier::rlimit(100)]
#[verifier::spinoff_prover]
proof fn lemma_team_row_reads(t: TeamListEntry)
    requires
        (match t.roster_rating { Some(s) => wire_plain(s@), None => true }),
        wire_plain(t.total_balance@),
        wire_plain(t.transfer_budget@),
        wire_plain(t.salary_budget@),
        wire_plain(t.stadium_capacity@),
        wire_plain(t.total_home_attendance@),
        wire_plain(t.home_match_count@),
        wire_plain(t.total_entrance_income@),
        wire_plain(t.popularity@),
        wire_plain(t.fan_count@),
        wire_plain(t.fan_momentum@),
        wire_plain(t.welfare@),
    ensures
        ({
        let f = split_pieces(team_row(t), ':');
        &&& f.len() == 26
        &&& f[0] == decimal_text(t.id as nat)
        &&& hex_decoded(f[1]) == Ok::<Seq<char>, BridgeError>(t.display_name@)
        &&& hex_decoded(f[2]) == Ok::<Seq<char>, BridgeError>(t.manager_name@)
        &&& f[3] == decimal_text(t.league_id as nat)
        &&& f[4] == (if t.is_player_team { seq!['1'] } else { seq!['0'] })
        &&& f[5] == decimal_text(t.roster_size as nat)
        &&& f[6] == decimal_text(t.staff_count as nat)
        &&& f[7] == match t.roster_rating { Some(s) => s@, None => Seq::<char>::empty() }
        &&& hex_decoded(f[8]) == Ok::<Seq<char>, BridgeError>(t.merchandise_facility_grade@)
        &&& hex_decoded(f[9]) == Ok::<Seq<char>, BridgeError>(t.stadium_grade@)
        &&& hex_decoded(f[10]) == Ok::<Seq<char>, BridgeError>(t.training_facility_grade@)
        &&& f[11] == t.total_balance@
        &&& f[12] == t.transfer_budget@
        &&& f[13] == t.salary_budget@
        &&& hex_decoded(f[14]) == Ok::<Seq<char>, BridgeError>(t.stadium_name@)
        &&& f[15] == t.stadium_capacity@
        &&& f[16] == t.total_home_attendance@
        &&& f[17] == t.home_match_count@
        &&& f[18] == t.total_entrance_income@
        &&& f[19] == t.popularity@
        &&& hex_decoded(f[20]) == Ok::<Seq<char>, BridgeError>(t.fan_expectation@)
        &&& hex_decoded(f[21]) == Ok::<Seq<char>, BridgeError>(t.fan_satisfaction@)
        &&& f[22] == t.fan_count@
        &&& f[23] == t.fan_momentum@
        &&& hex_decoded(f[24]) == Ok::<Seq<char>, BridgeError>(t.gaming_house_level@)
        &&& f[25] == t.welfare@
        }),
{
    lemma_team_row_fields(t);
    let f = team_entry_fields(t);
    assert(f.len() == 26);
    assert(f[0] == decimal_text(t.id as nat));
    lemma_hex_round_trip(t.display_name@);
    assert(hex_decoded(f[1]) == Ok::<Seq<char>, BridgeError>(t.display_name@));
    lemma_hex_round_trip(t.manager_name@);
    assert(hex_decoded(f[2]) == Ok::<Seq<char>, BridgeError>(t.manager_name@));
    assert(f[3] == decimal_text(t.league_id as nat));
    assert(f[4] == (if t.is_player_team { seq!['1'] } else { seq!['0'] }));
    assert(f[5] == decimal_text(t.roster_size as nat));
    assert(f[6] == decimal_text(t.staff_count as nat));
    assert(f[7] == match t.roster_rating { Some(s) => s@, None => Seq::<char>::empty() });
    lemma_hex_round_trip(t.merchandise_facility_grade@);
    assert(hex_decoded(f[8]) == Ok::<Seq<char>, BridgeError>(t.merchandise_facility_grade@));
    lemma_hex_round_trip(t.stadium_grade@);
    assert(hex_decoded(f[9]) == Ok::<Seq<char>, BridgeError>(t.stadium_grade@));
    lemma_hex_round_trip(t.training_facility_grade@);
    assert(hex_decoded(f[10]) == Ok::<Seq<char>, BridgeError>(t.training_facility_grade@));
    assert(f[11] == t.total_balance@);
    assert(f[12] == t.transfer_budget@);
    assert(f[13] == t.salary_budget@);
    lemma_hex_round_trip(t.stadium_name@);
    assert(hex_decoded(f[14]) == Ok::<Seq<char>, BridgeError>(t.stadium_name@));
    assert(f[15] == t.stadium_capacity@);
    assert(f[16] == t.total_home_attendance@);
    assert(f[17] == t.home_match_count@);
    assert(f[18] == t.total_entrance_income@);
    assert(f[19] == t.popularity@);
    lemma_hex_round_trip(t.fan_expectation@);
    assert(hex_decoded(f[20]) == Ok::<Seq<char>, BridgeError>(t.fan_expectation@));
    lemma_hex_round_trip(t.fan_satisfaction@);
    assert(hex_decoded(f[21]) == Ok::<Seq<char>, BridgeError>(t.fan_satisfaction@));
    assert(f[22] == t.fan_count@);
    assert(f[23] == t.fan_momentum@);
    lemma_hex_round_trip(t.gaming_house_level@);
    assert(hex_decoded(f[24]) == Ok::<Seq<char>, BridgeError>(t.gaming_house_level@));
    assert(f[25] == t.welfare@);
}

/// An `OK|TEAMS` response splits into `OK`, `TEAMS`, the count and one row per team; each row's fields are the team's values in their fixed order, names decoding from hexadecimal and amounts as printed, when no amount holds a separator.
pub proof fn lemma_teams_response_reads_back(ps: Seq<TeamListEntry>, i: int)
    requires
        0 <= i < ps.len(),
        forall|j: int| 0 <= j < ps.len() ==> (match #[trigger] ps[j].roster_rating { Some(s) => wire_plain(s@), None => true }) && wire_plain(ps[j].total_balance@) && wire_plain(ps[j].transfer_budget@) && wire_plain(ps[j].salary_budget@) && wire_plain(ps[j].stadium_capacity@) && wire_plain(ps[j].total_home_attendance@) && wire_plain(ps[j].home_match_count@) && wire_plain(ps[j].total_entrance_income@) && wire_plain(ps[j].popularity@) && wire_plain(ps[j].fan_count@) && wire_plain(ps[j].fan_momentum@) && wire_plain(ps[j].welfare@),
    ensures
        ({
        let top = split_pieces(list_response("TEAMS"@, ps.len(), team_rows(ps)), '|');
        let rows = split_pieces(top[3], ';');
        let f = split_pieces(rows[i], ':');
        &&& top.len() == 4
        &&& top[0] == "OK"@
        &&& top[1] == "TEAMS"@
        &&& top[2] == decimal_text(ps.len())
        &&& rows.len() == ps.len()
        &&& f.len() == 26
        &&& f[0] == decimal_text(ps[i].id as nat)
        &&& hex_decoded(f[1]) == Ok::<Seq<char>, BridgeError>(ps[i].display_name@)
        &&& hex_decoded(f[2]) == Ok::<Seq<char>, BridgeError>(ps[i].manager_name@)
        &&& f[3] == decimal_text(ps[i].league_id as nat)
        &&& f[4] == (if ps[i].is_player_team { seq!['1'] } else { seq!['0'] })
        &&& f[5] == decimal_text(ps[i].roster_size as nat)
        &&& f[6] == decimal_text(ps[i].staff_count as nat)
        &&& f[7] == match ps[i].roster_rating { Some(s) => s@, None => Seq::<char>::empty() }
        &&& hex_decoded(f[8]) == Ok::<Seq<char>, BridgeError>(ps[i].merchandise_facility_grade@)
        &&& hex_decoded(f[9]) == Ok::<Seq<char>, BridgeError>(ps[i].stadium_grade@)
        &&& hex_decoded(f[10]) == Ok::<Seq<char>, BridgeError>(ps[i].training_facility_grade@)
        &&& f[11] == ps[i].total_balance@
        &&& f[12] == ps[i].transfer_budget@
        &&& f[13] == ps[i].salary_budget@
        &&& hex_decoded(f[14]) == Ok::<Seq<char>, BridgeError>(ps[i].stadium_name@)
        &&& f[15] == ps[i].stadium_capacity@
        &&& f[16] == ps[i].total_home_attendance@
        &&& f[17] == ps[i].home_match_count@
        &&& f[18] == ps[i].total_entrance_income@
        &&& f[19] == ps[i].popularity@
        &&& hex_decoded(f[20]) == Ok::<Seq<char>, BridgeError>(ps[i].fan_expectation@)
        &&& hex_decoded(f[21]) == Ok::<Seq<char>, BridgeError>(ps[i].fan_satisfaction@)
        &&& f[22] == ps[i].fan_count@
        &&& f[23] == ps[i].fan_momentum@
        &&& hex_decoded(f[24]) == Ok::<Seq<char>, BridgeError>(ps[i].gaming_house_level@)
        &&& f[25] == ps[i].welfare@
        }),
{
    let rs = ps.map_values(|x: TeamListEntry| team_row(x));
    assert forall|j: int| 0 <= j < rs.len() implies !(#[trigger] rs[j]).contains(';') && !rs[j].contains('|') by {
        lemma_team_row_fields(ps[j]);
    }
    lemma_literal_plain_teams();
    lemma_list_pieces("TEAMS"@, ps.len(), rs);
    assert(team_rows(ps) == join_pieces(rs, ';'));
    assert(rs[i] == team_row(ps[i]));
    lemma_team_row_reads(ps[i]);
}

/// An `OK|PLAYER` response splits on `|` into `OK`, `PLAYER` and the player's fields in their fixed order (the five position proficiencies top, jungle, mid, bottom, support among them), when no printed value holds a `|`.
pub proof fn lemma_player_response_reads_back(p: PlayerSnapshot)
    requires
        !p.last_hit@.contains('|'),
        !p.skill_avoid@.contains('|'),
        !p.skill_hit@.contains('|'),
        !p.control_speed@.contains('|'),
        !p.positioning@.contains('|'),
        !p.judgement@.contains('|'),
        !p.mental@.contains('|'),
        !p.concentration@.contains('|'),
        !p.order@.contains('|'),
        !p.roaming@.contains('|'),
        !p.aggressive@.contains('|'),
        !p.ego@.contains('|'),
        !p.top@.contains('|'),
        !p.jungle@.contains('|'),
        !p.mid@.contains('|'),
        !p.bottom@.contains('|'),
        !p.support@.contains('|'),
        !p.potential@.contains('|'),
        !p.annual_salary@.contains('|'),
        !p.weekly_salary@.contains('|'),
        !p.contract_team_id@.contains('|'),
        !p.transfer_fee@.contains('|'),
        !p.incentive_pog_bonus@.contains('|'),
        !p.incentive_league_bonus@.contains('|'),
        !p.incentive_league_rank@.contains('|'),
        !p.incentive_match_bonus@.contains('|'),
        !p.incentive_win_bonus@.contains('|'),
        !p.primary_region@.contains('|'),
    ensures
        ({
        let f = split_pieces(join_pieces(player_response_fields(p), '|'), '|');
        &&& f.len() == 37
        &&& f[0] == "OK"@
        &&& f[1] == "PLAYER"@
        &&& f[2] == decimal_text(p.id as nat)
        &&& hex_decoded(f[3]) == Ok::<Seq<char>, BridgeError>(p.name@)
        &&& f[4] == p.last_hit@
        &&& f[5] == p.skill_avoid@
        &&& f[6] == p.skill_hit@
        &&& f[7] == p.control_speed@
        &&& f[8] == p.positioning@
        &&& f[9] == p.judgement@
        &&& f[10] == p.mental@
        &&& f[11] == p.concentration@
        &&& f[12] == p.order@
        &&& f[13] == p.roaming@
        &&& f[14] == p.aggressive@
        &&& f[15] == p.ego@
        &&& f[16] == p.top@
        &&& f[17] == p.jungle@
        &&& f[18] == p.mid@
        &&& f[19] == p.bottom@
        &&& f[20] == p.support@
        &&& f[21] == p.potential@
        &&& f[22] == p.annual_salary@
        &&& f[23] == p.weekly_salary@
        &&& f[24] == p.contract_team_id@
        &&& hex_decoded(f[25]) == Ok::<Seq<char>, BridgeError>(p.contract_start_date@)
        &&& hex_decoded(f[26]) == Ok::<Seq<char>, BridgeError>(p.contract_end_date@)
        &&& f[27] == p.transfer_fee@
        &&& hex_decoded(f[28]) == Ok::<Seq<char>, BridgeError>(p.squad_status@)
        &&& f[29] == p.incentive_pog_bonus@
        &&& f[30] == p.incentive_league_bonus@
        &&& f[31] == p.incentive_league_rank@
        &&& f[32] == p.incentive_match_bonus@
        &&& f[33] == p.incentive_win_bonus@
        &&& f[34] == p.primary_region@
        &&& hex_decoded(f[35]) == Ok::<Seq<char>, BridgeError>(p.communication_raw@)
        &&& hex_decoded(f[36]) == Ok::<Seq<char>, BridgeError>(p.communication_xp_raw@)
        }),
{
    let fs = player_response_fields(p);
    assert(fs.len() == 37);
    assert forall|k: int| 0 <= k < fs.len() implies !(#[trigger] fs[k]).contains('|') by {
        if k == 0 {
            lemma_literal_plain_ok();
        } else if k == 1 {
            lemma_literal_plain_player();
        } else if k == 2 {
            lemma_num_plain(p.id as nat);
        } else if k == 3 {
            lemma_hex_plain(p.name@);
        } else if k == 4 {
        } else if k == 5 {
        } else if k == 6 {
        } else if k == 7 {
        } else if k == 8 {
        } else if k == 9 {
        } else if k == 10 {
        } else if k == 11 {
        } else if k == 12 {
        } else if k == 13 {
        } else if k == 14 {
        } else if k == 15 {
        } else if k == 16 {
        } else if k == 17 {
        } else if k == 18 {
        } else if k == 19 {
        } else if k == 20 {
        } else if k == 21 {
        } else if k == 22 {
        } else if k == 23 {
        } else if k == 24 {
        } else if k == 25 {
            lemma_hex_plain(p.contract_start_date@);
        } else if k == 26 {
            lemma_hex_plain(p.contract_end_date@);
        } else if k == 27 {
        } else if k == 28 {
            lemma_hex_plain(p.squad_status@);
        } else if k == 29 {
        } else if k == 30 {
        } else if k == 31 {
        } else if k == 32 {
        } else if k == 33 {
        } else if k == 34 {
        } else if k == 35 {
            lemma_hex_plain(p.communication_raw@);
        } else if k == 36 {
            lemma_hex_plain(p.communication_xp_raw@);
        }
    }
    lemma_split_join(fs, '|');
    lemma_hex_round_trip(p.name@);
    lemma_hex_round_trip(p.contract_start_date@);
    lemma_hex_round_trip(p.contract_end_date@);
    lemma_hex_round_trip(p.squad_status@);
    lemma_hex_round_trip(p.communication_raw@);
    lemma_hex_round_trip(p.communication_xp_raw@);
}

/// An `OK|STAFF` response splits on `|` into `OK`, `STAFF` and the staff member's fields in their fixed order, when no printed value holds a `|`.
pub proof fn lemma_staff_response_reads_back(s: StaffSnapshot)
    requires
        !s.banpick@.contains('|'),
        !s.strategy@.contains('|'),
        !s.negotiation@.contains('|'),
        !s.judge_ability@.contains('|'),
        !s.judge_potential@.contains('|'),
        !s.feedback@.contains('|'),
        !s.power_analysis@.contains('|'),
        !s.control_coaching@.contains('|'),
        !s.judgment_coaching@.contains('|'),
        !s.mental_coaching@.contains('|'),
        !s.annual_salary@.contains('|'),
        !s.contract_team_id@.contains('|'),
    ensures
        ({
        let f = split_pieces(join_pieces(staff_response_fields(s), '|'), '|');
        &&& f.len() == 22
        &&& f[0] == "OK"@
        &&& f[1] == "STAFF"@
        &&& f[2] == decimal_text(s.id as nat)
        &&& hex_decoded(f[3]) == Ok::<Seq<char>, BridgeError>(s.name@)
        &&& hex_decoded(f[4]) == Ok::<Seq<char>, BridgeError>(s.age@)
        &&& hex_decoded(f[5]) == Ok::<Seq<char>, BridgeError>(s.role@)
        &&& hex_decoded(f[6]) == Ok::<Seq<char>, BridgeError>(s.team@)
        &&& f[7] == s.banpick@
        &&& f[8] == s.strategy@
        &&& f[9] == s.negotiation@
        &&& f[10] == s.judge_ability@
        &&& f[11] == s.judge_potential@
        &&& f[12] == s.feedback@
        &&& f[13] == s.power_analysis@
        &&& f[14] == s.control_coaching@
        &&& f[15] == s.judgment_coaching@
        &&& f[16] == s.mental_coaching@
        &&& f[17] == s.annual_salary@
        &&& f[18] == s.contract_team_id@
        &&& hex_decoded(f[19]) == Ok::<Seq<char>, BridgeError>(s.contract_start_date@)
        &&& hex_decoded(f[20]) == Ok::<Seq<char>, BridgeError>(s.contract_end_date@)
        &&& hex_decoded(f[21]) == Ok::<Seq<char>, BridgeError>(s.communication_raw@)
        }),
{
    let fs = staff_response_fields(s);
    assert(fs.len() == 22);
    assert forall|k: int| 0 <= k < fs.len() implies !(#[trigger] fs[k]).contains('|') by {
        if k == 0 {
            lemma_literal_plain_ok();
        } else if k == 1 {
            lemma_literal_plain_staff();
        } else if k == 2 {
            lemma_num_plain(s.id as nat);
        } else if k == 3 {
            lemma_hex_plain(s.name@);
        } else if k == 4 {
            lemma_hex_plain(s.age@);
        } else if k == 5 {
            lemma_hex_plain(s.role@);
        } else if k == 6 {
            lemma_hex_plain(s.team@);
        } else if k == 7 {
        } else if k == 8 {
        } else if k == 9 {
        } else if k == 10 {
        } else if k == 11 {
        } else if k == 12 {
        } else if k == 13 {
        } else if k == 14 {
        } else if k == 15 {
        } else if k == 16 {
        } else if k == 17 {
        } else if k == 18 {
        } else if k == 19 {
            lemma_hex_plain(s.contract_start_date@);
        } else if k == 20 {
            lemma_hex_plain(s.contract_end_date@);
        } else if k == 21 {
            lemma_hex_plain(s.communication_raw@);
        }
    }
    lemma_split_join(fs, '|');
    lemma_hex_round_trip(s.name@);
    lemma_hex_round_trip(s.age@);
    lemma_hex_round_trip(s.role@);
    lemma_hex_round_trip(s.team@);
    lemma_hex_round_trip(s.contract_start_date@);
    lemma_hex_round_trip(s.contract_end_date@);
    lemma_hex_round_trip(s.communication_raw@);
}

/// An `OK|TEAM_MANAGEMENT` response splits on `|` into `OK`, `TEAM_MANAGEMENT`, the team id and each settings table decoding from hexadecimal.
pub proof fn lemma_team_management_response_reads_back(t: TeamManagementSnapshot)
    ensures
        ({
        let f = split_pieces(join_pieces(team_management_fields(t), '|'), '|');
        &&& f.len() == 10
        &&& f[0] == "OK"@
        &&& f[1] == "TEAM_MANAGEMENT"@
        &&& f[2] == decimal_text(t.team_id as nat)
        &&& hex_decoded(f[3]) == Ok::<Seq<char>, BridgeError>(t.management@)
        &&& hex_decoded(f[4]) == Ok::<Seq<char>, BridgeError>(t.current_strategy@)
        &&& hex_decoded(f[5]) == Ok::<Seq<char>, BridgeError>(t.last_strategy@)
        &&& hex_decoded(f[6]) == Ok::<Seq<char>, BridgeError>(t.team_color_strategy@)
        &&& hex_decoded(f[7]) == Ok::<Seq<char>, BridgeError>(t.merchandise@)
        &&& hex_decoded(f[8]) == Ok::<Seq<char>, BridgeError>(t.champion_setup@)
        &&& hex_decoded(f[9]) == Ok::<Seq<char>, BridgeError>(t.gaming_house@)
        }),
{
    let fs = team_management_fields(t);
    assert(fs.len() == 10);
    assert forall|k: int| 0 <= k < fs.len() implies !(#[trigger] fs[k]).contains('|') by {
        if k == 0 {
            lemma_literal_plain_ok();
        } else if k == 1 {
            lemma_literal_plain_team_management();
        } else if k == 2 {
            lemma_num_plain(t.team_id as nat);
        } else if k == 3 {
            lemma_hex_plain(t.management@);
        } else if k == 4 {
            lemma_hex_plain(t.current_strategy@);
        } else if k == 5 {
            lemma_hex_plain(t.last_strategy@);
        } else if k == 6 {
            lemma_hex_plain(t.team_color_strategy@);
        } else if k == 7 {
            lemma_hex_plain(t.merchandise@);
        } else if k == 8 {
            lemma_hex_plain(t.champion_setup@);
        } else if k == 9 {
            lemma_hex_plain(t.gaming_house@);
        }
    }
    lemma_split_join(fs, '|');
    lemma_hex_round_trip(t.management@);
    lemma_hex_round_trip(t.current_strategy@);
    lemma_hex_round_trip(t.last_strategy@);
    lemma_hex_round_trip(t.team_color_strategy@);
    lemma_hex_round_trip(t.merchandise@);
    lemma_hex_round_trip(t.champion_setup@);
    lemma_hex_round_trip(t.gaming_house@);
}

proof fn lemma_literal_plain_recruitment()
    ensures
        wire_plain("RECRUITMENT"@),
{
    reveal_strlit("RECRUITMENT");
    let t = "RECRUITMENT"@;
    assert forall|i: int| 0 <= i < t.len() implies t[i] != ':' && t[i] != ';' && t[i] != '|' by {}
}

proof fn lemma_literal_plain_player_condition()
    ensures
        wire_plain("PLAYER_CONDITION"@),
{
    reveal_strlit("PLAYER_CONDITION");
    let t = "PLAYER_CONDITION"@;
    assert forall|i: int| 0 <= i < t.len() implies t[i] != ':' && t[i] != ';' && t[i] != '|' by {}
}

proof fn lemma_literal_plain_contract_defaults()
    ensures
        wire_plain("CONTRACT_DEFAULTS"@),
{
    reveal_strlit("CONTRACT_DEFAULTS");
    let t = "CONTRACT_DEFAULTS"@;
    assert forall|i: int| 0 <= i < t.len() implies t[i] != ':' && t[i] != ';' && t[i] != '|' by {}
}

proof fn lemma_literal_plain_mastery_probe()
    ensures
        wire_plain("MASTERY_PROBE"@),
{
    reveal_strlit("MASTERY_PROBE");
    let t = "MASTERY_PROBE"@;
    assert forall|i: int| 0 <= i < t.len() implies t[i] != ':' && t[i] != ';' && t[i] != '|' by {}
}

/// An `OK|RECRUITMENT` response splits on `|` into `OK`, `RECRUITMENT`, the
/// transfer setting and then the retry setting, each `1` when on and `0`
/// when off.
pub proof fn lemma_recruitment_response_reads_back(transfer_always_success: bool, recruitment_instant_retry: bool)
    ensures
        ({
        let f = split_pieces(recruitment_response(transfer_always_success, recruitment_instant_retry), '|');
        &&& f.len() == 4
        &&& f[0] == "OK"@
        &&& f[1] == "RECRUITMENT"@
        &&& f[2] == (if transfer_always_success { seq!['1'] } else { seq!['0'] })
        &&& f[3] == (if recruitment_instant_retry { seq!['1'] } else { seq!['0'] })
        }),
{
    lemma_literal_plain_ok();
    lemma_literal_plain_recruitment();
    lemma_flag_plain(transfer_always_success);
    lemma_flag_plain(recruitment_instant_retry);
    let ps = seq!["OK"@, "RECRUITMENT"@, flag_text(transfer_always_success), flag_text(recruitment_instant_retry)];
    assert forall|k: int| 0 <= k < ps.len() implies !(#[trigger] ps[k]).contains('|') by {}
    lemma_split_join(ps, '|');
}

/// An `OK|PLAYER_CONDITION` response splits on `|` into `OK`,
/// `PLAYER_CONDITION`, the player's id, its stamina and then its condition,
/// when neither value holds a `|`.
pub proof fn lemma_player_condition_response_reads_back(snapshot: PlayerConditionSnapshot)
    requires
        !snapshot.stamina@.contains('|'),
        !snapshot.condition@.contains('|'),
    ensures
        ({
        let f = split_pieces(player_condition_response(snapshot), '|');
        &&& f.len() == 5
        &&& f[0] == "OK"@
        &&& f[1] == "PLAYER_CONDITION"@
        &&& f[2] == decimal_text(snapshot.athlete_id as nat)
        &&& f[3] == snapshot.stamina@
        &&& f[4] == snapshot.condition@
        }),
{
    lemma_literal_plain_ok();
    lemma_literal_plain_player_condition();
    lemma_num_plain(snapshot.athlete_id as nat);
    let ps = seq!["OK"@, "PLAYER_CONDITION"@, decimal_text(snapshot.athlete_id as nat), snapshot.stamina@, snapshot.condition@];
    assert forall|k: int| 0 <= k < ps.len() implies !(#[trigger] ps[k]).contains('|') by {}
    lemma_split_join(ps, '|');
}

/// An `OK|CONTRACT_DEFAULTS` response splits on `|` into `OK`,
/// `CONTRACT_DEFAULTS`, the start date, the end date and then the annual
/// salary, when no value holds a `|`.
pub proof fn lemma_contract_defaults_response_reads_back(values: ContractDefaults)
    requires
        !values.start_date@.contains('|'),
        !values.end_date@.contains('|'),
        !values.annual_salary@.contains('|'),
    ensures
        ({
        let f = split_pieces(contract_defaults_response(values), '|');
        &&& f.len() == 5
        &&& f[0] == "OK"@
        &&& f[1] == "CONTRACT_DEFAULTS"@
        &&& f[2] == values.start_date@
        &&& f[3] == values.end_date@
        &&& f[4] == values.annual_salary@
        }),
{
    lemma_literal_plain_ok();
    lemma_literal_plain_contract_defaults();
    let ps = seq!["OK"@, "CONTRACT_DEFAULTS"@, values.start_date@, values.end_date@, values.annual_salary@];
    assert forall|k: int| 0 <= k < ps.len() implies !(#[trigger] ps[k]).contains('|') by {}
    lemma_split_join(ps, '|');
}

/// An `OK|MASTERY_PROBE` response splits on `|` into `OK`, `MASTERY_PROBE`,
/// then the mastery state and the available champions, each decoding from
/// hexadecimal to the text given.
pub proof fn lemma_mastery_probe_response_reads_back(mastery_state: Seq<char>, available_champions: Seq<char>)
    ensures
        ({
        let f = split_pieces(mastery_probe_response(mastery_state, available_champions), '|');
        &&& f.len() == 4
        &&& f[0] == "OK"@
        &&& f[1] == "MASTERY_PROBE"@
        &&& hex_decoded(f[2]) == Ok::<Seq<char>, BridgeError>(mastery_state)
        &&& hex_decoded(f[3]) == Ok::<Seq<char>, BridgeError>(available_champions)
        }),
{
    lemma_literal_plain_ok();
    lemma_literal_plain_mastery_probe();
    lemma_hex_plain(mastery_state);
    lemma_hex_plain(available_champions);
    lemma_hex_round_trip(mastery_state);
    lemma_hex_round_trip(available_champions);
    let ps = seq!["OK"@, "MASTERY_PROBE"@, hex_text(mastery_state), hex_text(available_champions)];
    assert forall|k: int| 0 <= k < ps.len() implies !(#[trigger] ps[k]).contains('|') by {}
    lemma_split_join(ps, '|');
}

proof fn lemma_versions_plain()
    ensures
        !BRIDGE_VERSION@.contains('|'),
        !TFM2_TARGET_VERSION@.contains('|'),
{
    reveal_strlit("0.2.59");
    reveal_strlit("0.5.5");
    let a = BRIDGE_VERSION@;
    let b = TFM2_TARGET_VERSION@;
    assert forall|i: int| 0 <= i < a.len() implies a[i] != '|' by {}
    assert forall|i: int| 0 <= i < b.len() implies b[i] != '|' by {}
}

proof fn lemma_literal_plain_global(t: Seq<char>)
    requires
        forall|i: int| 0 <= i < t.len() ==> 'A' <= #[trigger] t[i] <= 'Z' || t[i] == '_',
    ensures
        !t.contains('|'),
{
}

/// Hex records joined with `;` hold no `|`, and split on `;` back into one
/// piece per record, each decoding to the record's text.
proof fn lemma_records_pieces(records: Seq<String>)
    ensures
        !hex_joined(records).contains('|'),
        records.len() >= 1 ==> split_pieces(hex_joined(records), ';').len() == records.len(),
        records.len() >= 1 ==> forall|k: int| 0 <= k < records.len()
            ==> hex_decoded(#[trigger] split_pieces(hex_joined(records), ';')[k]) == Ok::<Seq<char>, BridgeError>(records[k]@),
{
    let hs = records.map_values(|r: String| hex_text(r@));
    assert forall|j: int| 0 <= j < hs.len() implies !(#[trigger] hs[j]).contains(';') && !hs[j].contains('|') by {
        lemma_hex_text_excludes(records[j]@, ';');
        lemma_hex_text_excludes(records[j]@, '|');
    }
    lemma_join_contains(hs, ';', '|');
    if records.len() >= 1 {
        lemma_split_join(hs, ';');
        assert forall|k: int| 0 <= k < records.len() implies hex_decoded(#[trigger] split_pieces(hex_joined(records), ';')[k])
            == Ok::<Seq<char>, BridgeError>(records[k]@) by {
            lemma_hex_round_trip(records[k]@);
        }
    }
}

/// A team's match response splits on `|` into `OK`, its kind, the two
/// versions, the capture, the player's team, then the team asked for, the
/// count of records and the records, which split on `;` into one hex piece
/// per record in order.
pub proof fn lemma_global_team_records_response_reads_back(
    kind: Seq<char>,
    capture_index: usize,
    player_team_id: usize,
    team_id: usize,
    records: Seq<String>,
)
    requires
        !kind.contains('|'),
    ensures
        ({
        let f = split_pieces(global_team_records_response(kind, capture_index, player_team_id, team_id, records), '|');
        &&& f.len() == 9
        &&& f[0] == "OK"@
        &&& f[1] == kind
        &&& f[2] == BRIDGE_VERSION@
        &&& f[3] == TFM2_TARGET_VERSION@
        &&& f[4] == decimal_text(capture_index as nat)
        &&& f[5] == decimal_text(player_team_id as nat)
        &&& f[6] == decimal_text(team_id as nat)
        &&& f[7] == decimal_text(records.len())
        &&& f[8] == hex_joined(records)
        &&& records.len() >= 1 ==> split_pieces(f[8], ';').len() == records.len()
        &&& records.len() >= 1 ==> forall|k: int| 0 <= k < records.len()
            ==> hex_decoded(#[trigger] split_pieces(f[8], ';')[k]) == Ok::<Seq<char>, BridgeError>(records[k]@)
        }),
{
    lemma_literal_plain_ok();
    lemma_versions_plain();
    lemma_num_plain(capture_index as nat);
    lemma_num_plain(player_team_id as nat);
    lemma_num_plain(team_id as nat);
    lemma_num_plain(records.len());
    lemma_records_pieces(records);
    let ps = seq![
        "OK"@,
        kind,
        BRIDGE_VERSION@,
        TFM2_TARGET_VERSION@,
        decimal_text(capture_index as nat),
        decimal_text(player_team_id as nat),
        decimal_text(team_id as nat),
        decimal_text(records.len()),
        hex_joined(records),
    ];
    assert forall|k: int| 0 <= k < ps.len() implies !(#[trigger] ps[k]).contains('|') by {}
    lemma_split_join(ps, '|');
}

/// The league list response splits on `|` into `OK`, `GLOBAL_LEAGUES`, the
/// two versions, the capture, the count of records and the records, which
/// split on `;` into one hex piece per record in order.
pub proof fn lemma_global_leagues_response_reads_back(capture_index: usize, records: Seq<String>)
    ensures
        ({
        let f = split_pieces(global_leagues_response(capture_index, records), '|');
        &&& f.len() == 7
        &&& f[0] == "OK"@
        &&& f[1] == "GLOBAL_LEAGUES"@
        &&& f[2] == BRIDGE_VERSION@
        &&& f[3] == TFM2_TARGET_VERSION@
        &&& f[4] == decimal_text(capture_index as nat)
        &&& f[5] == decimal_text(records.len())
        &&& f[6] == hex_joined(records)
        &&& records.len() >= 1 ==> split_pieces(f[6], ';').len() == records.len()
        &&& records.len() >= 1 ==> forall|k: int| 0 <= k < records.len()
            ==> hex_decoded(#[trigger] split_pieces(f[6], ';')[k]) == Ok::<Seq<char>, BridgeError>(records[k]@)
        }),
{
    lemma_literal_plain_ok();
    reveal_strlit("GLOBAL_LEAGUES");
    lemma_literal_plain_global("GLOBAL_LEAGUES"@);
    lemma_versions_plain();
    lemma_num_plain(capture_index as nat);
    lemma_num_plain(records.len());
    lemma_records_pieces(records);
    let ps = seq![
        "OK"@,
        "GLOBAL_LEAGUES"@,
        BRIDGE_VERSION@,
        TFM2_TARGET_VERSION@,
        decimal_text(capture_index as nat),
        decimal_text(records.len()),
        hex_joined(records),
    ];
    assert forall|k: int| 0 <= k < ps.len() implies !(#[trigger] ps[k]).contains('|') by {}
    lemma_split_join(ps, '|');
}

/// The league competition response splits on `|` into `OK`,
/// `GLOBAL_LEAGUE_COMPETITION`, the two versions, the capture, the league,
/// and the record, which decodes from hexadecimal to the JSON text given.
pub proof fn lemma_global_league_competition_response_reads_back(capture_index: usize, league_id: usize, json: Seq<char>)
    ensures
        ({
        let f = split_pieces(global_league_competition_response(capture_index, league_id, json), '|');
        &&& f.len() == 7
        &&& f[0] == "OK"@
        &&& f[1] == "GLOBAL_LEAGUE_COMPETITION"@
        &&& f[2] == BRIDGE_VERSION@
        &&& f[3] == TFM2_TARGET_VERSION@
        &&& f[4] == decimal_text(capture_index as nat)
        &&& f[5] == decimal_text(league_id as nat)
        &&& hex_decoded(f[6]) == Ok::<Seq<char>, BridgeError>(json)
        }),
{
    lemma_literal_plain_ok();
    reveal_strlit("GLOBAL_LEAGUE_COMPETITION");
    lemma_literal_plain_global("GLOBAL_LEAGUE_COMPETITION"@);
    lemma_versions_plain();
    lemma_num_plain(capture_index as nat);
    lemma_num_plain(league_id as nat);
    lemma_hex_plain(json);
    lemma_hex_round_trip(json);
    let ps = seq![
        "OK"@,
        "GLOBAL_LEAGUE_COMPETITION"@,
        BRIDGE_VERSION@,
        TFM2_TARGET_VERSION@,
        decimal_text(capture_index as nat),
        decimal_text(league_id as nat),
        hex_text(json),
    ];
    assert forall|k: int| 0 <= k < ps.len() implies !(#[trigger] ps[k]).contains('|') by {}
    lemma_split_join(ps, '|');
}

} // verus!
