//! The error codes that the Bridge writes after `ERR|`.

use vstd::prelude::*;

verus! {

/// Why a value, a payload or a command was refused.
#[derive(Debug, Clone, Copy, PartialEq, Eq, Structural)]
pub enum BridgeError {
    InvalidPayload,
    MissingValue,
    InvalidId,
    InvalidNameEncoding,
    NameEmpty,
    NameTooLong,
    NameControlCharacter,
    InvalidContractDate,
    ContractEndBeforeStart,
    NoCommunicationRegions,
    DuplicateRegion,
    CommunicationOutOfRange,
    InvalidCommunication,
    InvalidRegion,
    InvalidReplayId,
    NoReplayIds,
    MissingStrategyValue,
    InvalidMerchandiseType,
    InvalidMerchandiseStock,
    InvalidFanPopularity,
    InvalidFanCount,
    InvalidFanExpectation,
    InvalidFanSatisfaction,
    InvalidFanMomentum,
    FanMomentumOutOfRange,
    FanCountOverflow,
    FanCountBelowPlayerFans,
    InvalidStaffRole,
    NoChampionsSelected,
    InvalidChampionId,
    MasteryOutOfRange,
    InvalidMasteryEntry,
    InvalidMastery,
    PositionOutOfRange,
    TooManyPositions,
    InvalidPosition,
    PotentialOutOfRange,
    InvalidPotential,
    NoRegionsDetected,
    InvalidBoolean,
    InvalidSquadStatus,
    InvalidLeagueRank,
    InvalidContractEntity,
    GlobalRecordNotObject,
    GlobalHistoryNotReady,
    LeagueCompetitionNotFound,
    UnknownCommand,
    InvalidSalary,
    SalaryOutOfRange,
    InvalidTransferFee,
    TransferFeeOutOfRange,
    InvalidContractBonus,
    ContractBonusOutOfRange,
    InvalidGameDate,
}

impl BridgeError {
    /// The code as it appears on the wire.
    pub open spec fn spec_code(self) -> &'static str {
        match self {
            BridgeError::InvalidPayload => "INVALID_PAYLOAD",
            BridgeError::MissingValue => "MISSING_VALUE",
            BridgeError::InvalidId => "INVALID_ID",
            BridgeError::InvalidNameEncoding => "INVALID_NAME_ENCODING",
            BridgeError::NameEmpty => "NAME_EMPTY",
            BridgeError::NameTooLong => "NAME_TOO_LONG",
            BridgeError::NameControlCharacter => "NAME_CONTROL_CHARACTER",
            BridgeError::InvalidContractDate => "INVALID_CONTRACT_DATE",
            BridgeError::ContractEndBeforeStart => "CONTRACT_END_BEFORE_START",
            BridgeError::NoCommunicationRegions => "NO_COMMUNICATION_REGIONS",
            BridgeError::DuplicateRegion => "DUPLICATE_REGION",
            BridgeError::CommunicationOutOfRange => "COMMUNICATION_OUT_OF_RANGE",
            BridgeError::InvalidCommunication => "INVALID_COMMUNICATION",
            BridgeError::InvalidRegion => "INVALID_REGION",
            BridgeError::InvalidReplayId => "INVALID_REPLAY_ID",
            BridgeError::NoReplayIds => "NO_REPLAY_IDS",
            BridgeError::MissingStrategyValue => "MISSING_STRATEGY_VALUE",
            BridgeError::InvalidMerchandiseType => "INVALID_MERCHANDISE_TYPE",
            BridgeError::InvalidMerchandiseStock => "INVALID_MERCHANDISE_STOCK",
            BridgeError::InvalidFanPopularity => "INVALID_FAN_POPULARITY",
            BridgeError::InvalidFanCount => "INVALID_FAN_COUNT",
            BridgeError::InvalidFanExpectation => "INVALID_FAN_EXPECTATION",
            BridgeError::InvalidFanSatisfaction => "INVALID_FAN_SATISFACTION",
            BridgeError::InvalidFanMomentum => "INVALID_FAN_MOMENTUM",
            BridgeError::FanMomentumOutOfRange => "FAN_MOMENTUM_OUT_OF_RANGE",
            BridgeError::FanCountOverflow => "FAN_COUNT_OVERFLOW",
            BridgeError::FanCountBelowPlayerFans => "FAN_COUNT_BELOW_PLAYER_FANS",
            BridgeError::InvalidStaffRole => "INVALID_STAFF_ROLE",
            BridgeError::NoChampionsSelected => "NO_CHAMPIONS_SELECTED",
            BridgeError::InvalidChampionId => "INVALID_CHAMPION_ID",
            BridgeError::MasteryOutOfRange => "MASTERY_OUT_OF_RANGE",
            BridgeError::InvalidMasteryEntry => "INVALID_MASTERY_ENTRY",
            BridgeError::InvalidMastery => "INVALID_MASTERY",
            BridgeError::PositionOutOfRange => "POSITION_OUT_OF_RANGE",
            BridgeError::TooManyPositions => "TOO_MANY_POSITIONS",
            BridgeError::InvalidPosition => "INVALID_POSITION",
            BridgeError::PotentialOutOfRange => "POTENTIAL_OUT_OF_RANGE",
            BridgeError::InvalidPotential => "INVALID_POTENTIAL",
            BridgeError::NoRegionsDetected => "NO_REGIONS_DETECTED",
            BridgeError::InvalidBoolean => "INVALID_BOOLEAN",
            BridgeError::InvalidSquadStatus => "INVALID_SQUAD_STATUS",
            BridgeError::InvalidLeagueRank => "INVALID_LEAGUE_RANK",
            BridgeError::InvalidContractEntity => "INVALID_CONTRACT_ENTITY",
            BridgeError::GlobalRecordNotObject => "GLOBAL_RECORD_NOT_OBJECT",
            BridgeError::GlobalHistoryNotReady => "GLOBAL_HISTORY_NOT_READY",
            BridgeError::LeagueCompetitionNotFound => "LEAGUE_COMPETITION_NOT_FOUND",
            BridgeError::UnknownCommand => "UNKNOWN_COMMAND",
            BridgeError::InvalidSalary => "INVALID_SALARY",
            BridgeError::SalaryOutOfRange => "SALARY_OUT_OF_RANGE",
            BridgeError::InvalidTransferFee => "INVALID_TRANSFER_FEE",
            BridgeError::TransferFeeOutOfRange => "TRANSFER_FEE_OUT_OF_RANGE",
            BridgeError::InvalidContractBonus => "INVALID_CONTRACT_BONUS",
            BridgeError::ContractBonusOutOfRange => "CONTRACT_BONUS_OUT_OF_RANGE",
            BridgeError::InvalidGameDate => "INVALID_GAME_DATE",
        }
    }

    /// The code as it appears on the wire.
    pub fn code(&self) -> (r: &'static str)
        ensures
            r == self.spec_code(),
    {
        match self {
            BridgeError::InvalidPayload => "INVALID_PAYLOAD",
            BridgeError::MissingValue => "MISSING_VALUE",
            BridgeError::InvalidId => "INVALID_ID",
            BridgeError::InvalidNameEncoding => "INVALID_NAME_ENCODING",
            BridgeError::NameEmpty => "NAME_EMPTY",
            BridgeError::NameTooLong => "NAME_TOO_LONG",
            BridgeError::NameControlCharacter => "NAME_CONTROL_CHARACTER",
            BridgeError::InvalidContractDate => "INVALID_CONTRACT_DATE",
            BridgeError::ContractEndBeforeStart => "CONTRACT_END_BEFORE_START",
            BridgeError::NoCommunicationRegions => "NO_COMMUNICATION_REGIONS",
            BridgeError::DuplicateRegion => "DUPLICATE_REGION",
            BridgeError::CommunicationOutOfRange => "COMMUNICATION_OUT_OF_RANGE",
            BridgeError::InvalidCommunication => "INVALID_COMMUNICATION",
            BridgeError::InvalidRegion => "INVALID_REGION",
            BridgeError::InvalidReplayId => "INVALID_REPLAY_ID",
            BridgeError::NoReplayIds => "NO_REPLAY_IDS",
            BridgeError::MissingStrategyValue => "MISSING_STRATEGY_VALUE",
            BridgeError::InvalidMerchandiseType => "INVALID_MERCHANDISE_TYPE",
            BridgeError::InvalidMerchandiseStock => "INVALID_MERCHANDISE_STOCK",
            BridgeError::InvalidFanPopularity => "INVALID_FAN_POPULARITY",
            BridgeError::InvalidFanCount => "INVALID_FAN_COUNT",
            BridgeError::InvalidFanExpectation => "INVALID_FAN_EXPECTATION",
            BridgeError::InvalidFanSatisfaction => "INVALID_FAN_SATISFACTION",
            BridgeError::InvalidFanMomentum => "INVALID_FAN_MOMENTUM",
            BridgeError::FanMomentumOutOfRange => "FAN_MOMENTUM_OUT_OF_RANGE",
            BridgeError::FanCountOverflow => "FAN_COUNT_OVERFLOW",
            BridgeError::FanCountBelowPlayerFans => "FAN_COUNT_BELOW_PLAYER_FANS",
            BridgeError::InvalidStaffRole => "INVALID_STAFF_ROLE",
            BridgeError::NoChampionsSelected => "NO_CHAMPIONS_SELECTED",
            BridgeError::InvalidChampionId => "INVALID_CHAMPION_ID",
            BridgeError::MasteryOutOfRange => "MASTERY_OUT_OF_RANGE",
            BridgeError::InvalidMasteryEntry => "INVALID_MASTERY_ENTRY",
            BridgeError::InvalidMastery => "INVALID_MASTERY",
            BridgeError::PositionOutOfRange => "POSITION_OUT_OF_RANGE",
            BridgeError::TooManyPositions => "TOO_MANY_POSITIONS",
            BridgeError::InvalidPosition => "INVALID_POSITION",
            BridgeError::PotentialOutOfRange => "POTENTIAL_OUT_OF_RANGE",
            BridgeError::InvalidPotential => "INVALID_POTENTIAL",
            BridgeError::NoRegionsDetected => "NO_REGIONS_DETECTED",
            BridgeError::InvalidBoolean => "INVALID_BOOLEAN",
            BridgeError::InvalidSquadStatus => "INVALID_SQUAD_STATUS",
            BridgeError::InvalidLeagueRank => "INVALID_LEAGUE_RANK",
            BridgeError::InvalidContractEntity => "INVALID_CONTRACT_ENTITY",
            BridgeError::GlobalRecordNotObject => "GLOBAL_RECORD_NOT_OBJECT",
            BridgeError::GlobalHistoryNotReady => "GLOBAL_HISTORY_NOT_READY",
            BridgeError::LeagueCompetitionNotFound => "LEAGUE_COMPETITION_NOT_FOUND",
            BridgeError::UnknownCommand => "UNKNOWN_COMMAND",
            BridgeError::InvalidSalary => "INVALID_SALARY",
            BridgeError::SalaryOutOfRange => "SALARY_OUT_OF_RANGE",
            BridgeError::InvalidTransferFee => "INVALID_TRANSFER_FEE",
            BridgeError::TransferFeeOutOfRange => "TRANSFER_FEE_OUT_OF_RANGE",
            BridgeError::InvalidContractBonus => "INVALID_CONTRACT_BONUS",
            BridgeError::ContractBonusOutOfRange => "CONTRACT_BONUS_OUT_OF_RANGE",
            BridgeError::InvalidGameDate => "INVALID_GAME_DATE",
        }
    }
}

} // verus!
