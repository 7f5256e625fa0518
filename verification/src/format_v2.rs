//! The v2 columnar format: the column catalog, its seven access groups,
//! and the fixed binary structures of an `.acctlm2` file (header, schema
//! block, row-group header, column entry, skip and lap index entries,
//! footer), each with an exact writer and reader.

use vstd::prelude::*;

verus! {

/// Logical access group for telemetry columns: columns read together are
/// stored together.
#[derive(Debug, Clone, Copy, PartialEq, Eq, Hash, Structural)]
pub enum GroupId {
    /// Frame identity: sample tick, timestamp and packet ids.
    FrameMeta,
    /// Controls and powertrain state.
    DriverInputs,
    /// Motion: velocity, acceleration, heading, pitch, roll.
    VehicleDynamics,
    /// Wheel and tyre data.
    Tyres,
    /// Lap and sector timing and session position.
    Timing,
    /// Weather and session conditions.
    Environment,
    /// Rarely read fields: car state, flags, other cars.
    ColdStorage,
}

impl GroupId {
    /// The number that stands for the group in the file: its place in the
    /// list of groups, from 0.
    pub open spec fn id_value(self) -> u16 {
        match self {
            GroupId::FrameMeta => 0,
            GroupId::DriverInputs => 1,
            GroupId::VehicleDynamics => 2,
            GroupId::Tyres => 3,
            GroupId::Timing => 4,
            GroupId::Environment => 5,
            GroupId::ColdStorage => 6,
        }
    }

    /// The number that stands for the group in the file.
    pub fn as_u16(self) -> (r: u16)
        ensures
            r == self.id_value(),
    {
        match self {
            GroupId::FrameMeta => 0,
            GroupId::DriverInputs => 1,
            GroupId::VehicleDynamics => 2,
            GroupId::Tyres => 3,
            GroupId::Timing => 4,
            GroupId::Environment => 5,
            GroupId::ColdStorage => 6,
        }
    }
}

/// Unique identifier of every column stored in the v2 format. Its numeric
/// value is given by [`ColumnId::as_u16`].
#[derive(Debug, Clone, Copy, PartialEq, Eq, Hash, Structural)]
pub enum ColumnId {
    SampleTick,
    TimestampNs,
    PhysicsPacketId,
    GraphicsPacketId,
    SpeedKmh,
    Gas,
    Brake,
    Clutch,
    SteerAngle,
    Gear,
    Rpms,
    Fuel,
    Velocity,
    AccG,
    LocalVelocity,
    LocalAngularVel,
    Heading,
    Pitch,
    Roll,
    WheelSlip,
    WheelLoad,
    WheelsPressure,
    WheelAngularSpeed,
    TyreWear,
    TyreDirtyLevel,
    TyreCoreTemperature,
    CamberRad,
    SuspensionTravel,
    SlipRatio,
    SlipAngle,
    TyreTempI,
    TyreTempM,
    TyreTempO,
    TyreTemp,
    Mz,
    Fx,
    Fy,
    SuspensionDamage,
    BrakeTemp,
    BrakePressure,
    PadLife,
    DiscLife,
    TyreContactPoint,
    TyreContactNormal,
    TyreContactHeading,
    NumberOfTyresOut,
    FrontBrakeCompound,
    RearBrakeCompound,
    TurboBoost,
    Ballast,
    KersCharge,
    KersInput,
    KersCurrentKj,
    Drs,
    TcPhysics,
    AbsPhysics,
    EngineBrake,
    ErsRecoveryLevel,
    ErsPowerLevel,
    ErsHeatCharging,
    ErsIsCharging,
    DrsAvailable,
    DrsEnabled,
    TcInAction,
    AbsInAction,
    AutoShifterOn,
    CurrentMaxRpm,
    P2pActivations,
    P2pStatus,
    WaterTemp,
    Status,
    Session,
    SessionIndex,
    CompletedLaps,
    Position,
    SessionTimeLeft,
    NumberOfLaps,
    CurrentSectorIndex,
    NormalizedCarPosition,
    IsInPit,
    IsInPitLane,
    MandatoryPitDone,
    MissingMandatoryPits,
    PenaltyTime,
    PenaltyType,
    TrackStatus,
    Clock,
    ReplayTimeMultiplier,
    IsValidLap,
    GlobalYellow,
    GlobalYellow1,
    GlobalYellow2,
    GlobalYellow3,
    GlobalWhite,
    GlobalGreen,
    GlobalChequered,
    GlobalRed,
    GapAheadOrTailValue,
    Flag,
    GapBehind,
    ICurrentTime,
    ILastTime,
    IBestTime,
    ISplit,
    LastSectorTime,
    IDeltaLapTime,
    IsDeltaPositive,
    IEstimatedLapTime,
    FuelEstimatedLaps,
    FuelXLap,
    UsedFuel,
    DistanceTraveled,
    CurrentTimeStr,
    LastTimeStr,
    BestTimeStr,
    SplitStr,
    DeltaLapTimeStr,
    EstimatedLapTimeStr,
    ObservedSlotBeforeISplit,
    CarDamage,
    PitLimiterOn,
    RideHeight,
    IgnitionOn,
    StarterEngineOn,
    IsEngineRunning,
    IsAiControlled,
    CgHeight,
    BrakeBias,
    RainLights,
    FlashingLights,
    LightsStage,
    WiperLv,
    DriverStintTotalTimeLeft,
    DriverStintTimeLeft,
    RainTyres,
    CurrentTyreSet,
    StrategyTyreSet,
    TrackGripStatus,
    TyreCompoundStr,
    MfdTyreSet,
    MfdFuelToAdd,
    MfdTyrePressure,
    IdealLineOn,
    IsSetupMenuVisible,
    MainDisplayIndex,
    SecondaryDisplayIndex,
    DirectionLightsLeft,
    DirectionLightsRight,
    TcLevel,
    TcCut,
    EngineMap,
    AbsLevel,
    ExhaustTemperature,
    FinalFf,
    PerformanceMeter,
    KerbVibration,
    SlipVibrations,
    GVibrations,
    AbsVibrations,
    AirDensity,
    AirTemp,
    RoadTemp,
    WindSpeed,
    WindDirection,
    SurfaceGrip,
    RainIntensity,
    RainIntensityIn10min,
    RainIntensityIn30min,
    ActiveCars,
    PlayerCarId,
    CarCoordinates,
    CarId,
}

/// The numeric identifier of each column.
pub open spec fn column_id_value(c: ColumnId) -> u16 {
    match c {
        ColumnId::SampleTick => 1,
        ColumnId::TimestampNs => 2,
        ColumnId::PhysicsPacketId => 3,
        ColumnId::GraphicsPacketId => 4,
        ColumnId::SpeedKmh => 10,
        ColumnId::Gas => 11,
        ColumnId::Brake => 12,
        ColumnId::Clutch => 13,
        ColumnId::SteerAngle => 14,
        ColumnId::Gear => 15,
        ColumnId::Rpms => 16,
        ColumnId::Fuel => 17,
        ColumnId::Velocity => 20,
        ColumnId::AccG => 21,
        ColumnId::LocalVelocity => 22,
        ColumnId::LocalAngularVel => 23,
        ColumnId::Heading => 24,
        ColumnId::Pitch => 25,
        ColumnId::Roll => 26,
        ColumnId::WheelSlip => 30,
        ColumnId::WheelLoad => 31,
        ColumnId::WheelsPressure => 32,
        ColumnId::WheelAngularSpeed => 33,
        ColumnId::TyreWear => 34,
        ColumnId::TyreDirtyLevel => 35,
        ColumnId::TyreCoreTemperature => 36,
        ColumnId::CamberRad => 37,
        ColumnId::SuspensionTravel => 38,
        ColumnId::SlipRatio => 39,
        ColumnId::SlipAngle => 40,
        ColumnId::TyreTempI => 41,
        ColumnId::TyreTempM => 42,
        ColumnId::TyreTempO => 43,
        ColumnId::TyreTemp => 44,
        ColumnId::Mz => 45,
        ColumnId::Fx => 46,
        ColumnId::Fy => 47,
        ColumnId::SuspensionDamage => 48,
        ColumnId::BrakeTemp => 49,
        ColumnId::BrakePressure => 50,
        ColumnId::PadLife => 51,
        ColumnId::DiscLife => 52,
        ColumnId::TyreContactPoint => 53,
        ColumnId::TyreContactNormal => 54,
        ColumnId::TyreContactHeading => 55,
        ColumnId::NumberOfTyresOut => 56,
        ColumnId::FrontBrakeCompound => 57,
        ColumnId::RearBrakeCompound => 58,
        ColumnId::TurboBoost => 60,
        ColumnId::Ballast => 61,
        ColumnId::KersCharge => 62,
        ColumnId::KersInput => 63,
        ColumnId::KersCurrentKj => 64,
        ColumnId::Drs => 65,
        ColumnId::TcPhysics => 66,
        ColumnId::AbsPhysics => 67,
        ColumnId::EngineBrake => 68,
        ColumnId::ErsRecoveryLevel => 69,
        ColumnId::ErsPowerLevel => 70,
        ColumnId::ErsHeatCharging => 71,
        ColumnId::ErsIsCharging => 72,
        ColumnId::DrsAvailable => 73,
        ColumnId::DrsEnabled => 74,
        ColumnId::TcInAction => 75,
        ColumnId::AbsInAction => 76,
        ColumnId::AutoShifterOn => 77,
        ColumnId::CurrentMaxRpm => 78,
        ColumnId::P2pActivations => 79,
        ColumnId::P2pStatus => 80,
        ColumnId::WaterTemp => 81,
        ColumnId::Status => 90,
        ColumnId::Session => 91,
        ColumnId::SessionIndex => 92,
        ColumnId::CompletedLaps => 93,
        ColumnId::Position => 94,
        ColumnId::SessionTimeLeft => 95,
        ColumnId::NumberOfLaps => 96,
        ColumnId::CurrentSectorIndex => 97,
        ColumnId::NormalizedCarPosition => 98,
        ColumnId::IsInPit => 99,
        ColumnId::IsInPitLane => 100,
        ColumnId::MandatoryPitDone => 101,
        ColumnId::MissingMandatoryPits => 102,
        ColumnId::PenaltyTime => 103,
        ColumnId::PenaltyType => 104,
        ColumnId::TrackStatus => 105,
        ColumnId::Clock => 106,
        ColumnId::ReplayTimeMultiplier => 107,
        ColumnId::IsValidLap => 108,
        ColumnId::GlobalYellow => 109,
        ColumnId::GlobalYellow1 => 110,
        ColumnId::GlobalYellow2 => 111,
        ColumnId::GlobalYellow3 => 112,
        ColumnId::GlobalWhite => 113,
        ColumnId::GlobalGreen => 114,
        ColumnId::GlobalChequered => 115,
        ColumnId::GlobalRed => 116,
        ColumnId::GapAheadOrTailValue => 117,
        ColumnId::Flag => 118,
        ColumnId::GapBehind => 119,
        ColumnId::ICurrentTime => 120,
        ColumnId::ILastTime => 121,
        ColumnId::IBestTime => 122,
        ColumnId::ISplit => 123,
        ColumnId::LastSectorTime => 124,
        ColumnId::IDeltaLapTime => 125,
        ColumnId::IsDeltaPositive => 126,
        ColumnId::IEstimatedLapTime => 127,
        ColumnId::FuelEstimatedLaps => 128,
        ColumnId::FuelXLap => 129,
        ColumnId::UsedFuel => 130,
        ColumnId::DistanceTraveled => 131,
        ColumnId::CurrentTimeStr => 132,
        ColumnId::LastTimeStr => 133,
        ColumnId::BestTimeStr => 134,
        ColumnId::SplitStr => 135,
        ColumnId::DeltaLapTimeStr => 136,
        ColumnId::EstimatedLapTimeStr => 137,
        ColumnId::ObservedSlotBeforeISplit => 138,
        ColumnId::CarDamage => 150,
        ColumnId::PitLimiterOn => 151,
        ColumnId::RideHeight => 152,
        ColumnId::IgnitionOn => 153,
        ColumnId::StarterEngineOn => 154,
        ColumnId::IsEngineRunning => 155,
        ColumnId::IsAiControlled => 156,
        ColumnId::CgHeight => 157,
        ColumnId::BrakeBias => 158,
        ColumnId::RainLights => 159,
        ColumnId::FlashingLights => 160,
        ColumnId::LightsStage => 161,
        ColumnId::WiperLv => 162,
        ColumnId::DriverStintTotalTimeLeft => 163,
        ColumnId::DriverStintTimeLeft => 164,
        ColumnId::RainTyres => 165,
        ColumnId::CurrentTyreSet => 166,
        ColumnId::StrategyTyreSet => 167,
        ColumnId::TrackGripStatus => 168,
        ColumnId::TyreCompoundStr => 169,
        ColumnId::MfdTyreSet => 170,
        ColumnId::MfdFuelToAdd => 171,
        ColumnId::MfdTyrePressure => 172,
        ColumnId::IdealLineOn => 173,
        ColumnId::IsSetupMenuVisible => 174,
        ColumnId::MainDisplayIndex => 175,
        ColumnId::SecondaryDisplayIndex => 176,
        ColumnId::DirectionLightsLeft => 177,
        ColumnId::DirectionLightsRight => 178,
        ColumnId::TcLevel => 179,
        ColumnId::TcCut => 180,
        ColumnId::EngineMap => 181,
        ColumnId::AbsLevel => 182,
        ColumnId::ExhaustTemperature => 183,
        ColumnId::FinalFf => 184,
        ColumnId::PerformanceMeter => 185,
        ColumnId::KerbVibration => 186,
        ColumnId::SlipVibrations => 187,
        ColumnId::GVibrations => 188,
        ColumnId::AbsVibrations => 189,
        ColumnId::AirDensity => 200,
        ColumnId::AirTemp => 201,
        ColumnId::RoadTemp => 202,
        ColumnId::WindSpeed => 203,
        ColumnId::WindDirection => 204,
        ColumnId::SurfaceGrip => 205,
        ColumnId::RainIntensity => 206,
        ColumnId::RainIntensityIn10min => 207,
        ColumnId::RainIntensityIn30min => 208,
        ColumnId::ActiveCars => 210,
        ColumnId::PlayerCarId => 211,
        ColumnId::CarCoordinates => 212,
        ColumnId::CarId => 213,
    }
}

/// The column with numeric identifier `id`, if any.
pub open spec fn column_with_id(id: u16) -> Option<ColumnId> {
    match id {
        1 => Some(ColumnId::SampleTick),
        2 => Some(ColumnId::TimestampNs),
        3 => Some(ColumnId::PhysicsPacketId),
        4 => Some(ColumnId::GraphicsPacketId),
        10 => Some(ColumnId::SpeedKmh),
        11 => Some(ColumnId::Gas),
        12 => Some(ColumnId::Brake),
        13 => Some(ColumnId::Clutch),
        14 => Some(ColumnId::SteerAngle),
        15 => Some(ColumnId::Gear),
        16 => Some(ColumnId::Rpms),
        17 => Some(ColumnId::Fuel),
        20 => Some(ColumnId::Velocity),
        21 => Some(ColumnId::AccG),
        22 => Some(ColumnId::LocalVelocity),
        23 => Some(ColumnId::LocalAngularVel),
        24 => Some(ColumnId::Heading),
        25 => Some(ColumnId::Pitch),
        26 => Some(ColumnId::Roll),
        30 => Some(ColumnId::WheelSlip),
        31 => Some(ColumnId::WheelLoad),
        32 => Some(ColumnId::WheelsPressure),
        33 => Some(ColumnId::WheelAngularSpeed),
        34 => Some(ColumnId::TyreWear),
        35 => Some(ColumnId::TyreDirtyLevel),
        36 => Some(ColumnId::TyreCoreTemperature),
        37 => Some(ColumnId::CamberRad),
        38 => Some(ColumnId::SuspensionTravel),
        39 => Some(ColumnId::SlipRatio),
        40 => Some(ColumnId::SlipAngle),
        41 => Some(ColumnId::TyreTempI),
        42 => Some(ColumnId::TyreTempM),
        43 => Some(ColumnId::TyreTempO),
        44 => Some(ColumnId::TyreTemp),
        45 => Some(ColumnId::Mz),
        46 => Some(ColumnId::Fx),
        47 => Some(ColumnId::Fy),
        48 => Some(ColumnId::SuspensionDamage),
        49 => Some(ColumnId::BrakeTemp),
        50 => Some(ColumnId::BrakePressure),
        51 => Some(ColumnId::PadLife),
        52 => Some(ColumnId::DiscLife),
        53 => Some(ColumnId::TyreContactPoint),
        54 => Some(ColumnId::TyreContactNormal),
        55 => Some(ColumnId::TyreContactHeading),
        56 => Some(ColumnId::NumberOfTyresOut),
        57 => Some(ColumnId::FrontBrakeCompound),
        58 => Some(ColumnId::RearBrakeCompound),
        60 => Some(ColumnId::TurboBoost),
        61 => Some(ColumnId::Ballast),
        62 => Some(ColumnId::KersCharge),
        63 => Some(ColumnId::KersInput),
        64 => Some(ColumnId::KersCurrentKj),
        65 => Some(ColumnId::Drs),
        66 => Some(ColumnId::TcPhysics),
        67 => Some(ColumnId::AbsPhysics),
        68 => Some(ColumnId::EngineBrake),
        69 => Some(ColumnId::ErsRecoveryLevel),
        70 => Some(ColumnId::ErsPowerLevel),
        71 => Some(ColumnId::ErsHeatCharging),
        72 => Some(ColumnId::ErsIsCharging),
        73 => Some(ColumnId::DrsAvailable),
        74 => Some(ColumnId::DrsEnabled),
        75 => Some(ColumnId::TcInAction),
        76 => Some(ColumnId::AbsInAction),
        77 => Some(ColumnId::AutoShifterOn),
        78 => Some(ColumnId::CurrentMaxRpm),
        79 => Some(ColumnId::P2pActivations),
        80 => Some(ColumnId::P2pStatus),
        81 => Some(ColumnId::WaterTemp),
        90 => Some(ColumnId::Status),
        91 => Some(ColumnId::Session),
        92 => Some(ColumnId::SessionIndex),
        93 => Some(ColumnId::CompletedLaps),
        94 => Some(ColumnId::Position),
        95 => Some(ColumnId::SessionTimeLeft),
        96 => Some(ColumnId::NumberOfLaps),
        97 => Some(ColumnId::CurrentSectorIndex),
        98 => Some(ColumnId::NormalizedCarPosition),
        99 => Some(ColumnId::IsInPit),
        100 => Some(ColumnId::IsInPitLane),
        101 => Some(ColumnId::MandatoryPitDone),
        102 => Some(ColumnId::MissingMandatoryPits),
        103 => Some(ColumnId::PenaltyTime),
        104 => Some(ColumnId::PenaltyType),
        105 => Some(ColumnId::TrackStatus),
        106 => Some(ColumnId::Clock),
        107 => Some(ColumnId::ReplayTimeMultiplier),
        108 => Some(ColumnId::IsValidLap),
        109 => Some(ColumnId::GlobalYellow),
        110 => Some(ColumnId::GlobalYellow1),
        111 => Some(ColumnId::GlobalYellow2),
        112 => Some(ColumnId::GlobalYellow3),
        113 => Some(ColumnId::GlobalWhite),
        114 => Some(ColumnId::GlobalGreen),
        115 => Some(ColumnId::GlobalChequered),
        116 => Some(ColumnId::GlobalRed),
        117 => Some(ColumnId::GapAheadOrTailValue),
        118 => Some(ColumnId::Flag),
        119 => Some(ColumnId::GapBehind),
        120 => Some(ColumnId::ICurrentTime),
        121 => Some(ColumnId::ILastTime),
        122 => Some(ColumnId::IBestTime),
        123 => Some(ColumnId::ISplit),
        124 => Some(ColumnId::LastSectorTime),
        125 => Some(ColumnId::IDeltaLapTime),
        126 => Some(ColumnId::IsDeltaPositive),
        127 => Some(ColumnId::IEstimatedLapTime),
        128 => Some(ColumnId::FuelEstimatedLaps),
        129 => Some(ColumnId::FuelXLap),
        130 => Some(ColumnId::UsedFuel),
        131 => Some(ColumnId::DistanceTraveled),
        132 => Some(ColumnId::CurrentTimeStr),
        133 => Some(ColumnId::LastTimeStr),
        134 => Some(ColumnId::BestTimeStr),
        135 => Some(ColumnId::SplitStr),
        136 => Some(ColumnId::DeltaLapTimeStr),
        137 => Some(ColumnId::EstimatedLapTimeStr),
        138 => Some(ColumnId::ObservedSlotBeforeISplit),
        150 => Some(ColumnId::CarDamage),
        151 => Some(ColumnId::PitLimiterOn),
        152 => Some(ColumnId::RideHeight),
        153 => Some(ColumnId::IgnitionOn),
        154 => Some(ColumnId::StarterEngineOn),
        155 => Some(ColumnId::IsEngineRunning),
        156 => Some(ColumnId::IsAiControlled),
        157 => Some(ColumnId::CgHeight),
        158 => Some(ColumnId::BrakeBias),
        159 => Some(ColumnId::RainLights),
        160 => Some(ColumnId::FlashingLights),
        161 => Some(ColumnId::LightsStage),
        162 => Some(ColumnId::WiperLv),
        163 => Some(ColumnId::DriverStintTotalTimeLeft),
        164 => Some(ColumnId::DriverStintTimeLeft),
        165 => Some(ColumnId::RainTyres),
        166 => Some(ColumnId::CurrentTyreSet),
        167 => Some(ColumnId::StrategyTyreSet),
        168 => Some(ColumnId::TrackGripStatus),
        169 => Some(ColumnId::TyreCompoundStr),
        170 => Some(ColumnId::MfdTyreSet),
        171 => Some(ColumnId::MfdFuelToAdd),
        172 => Some(ColumnId::MfdTyrePressure),
        173 => Some(ColumnId::IdealLineOn),
        174 => Some(ColumnId::IsSetupMenuVisible),
        175 => Some(ColumnId::MainDisplayIndex),
        176 => Some(ColumnId::SecondaryDisplayIndex),
        177 => Some(ColumnId::DirectionLightsLeft),
        178 => Some(ColumnId::DirectionLightsRight),
        179 => Some(ColumnId::TcLevel),
        180 => Some(ColumnId::TcCut),
        181 => Some(ColumnId::EngineMap),
        182 => Some(ColumnId::AbsLevel),
        183 => Some(ColumnId::ExhaustTemperature),
        184 => Some(ColumnId::FinalFf),
        185 => Some(ColumnId::PerformanceMeter),
        186 => Some(ColumnId::KerbVibration),
        187 => Some(ColumnId::SlipVibrations),
        188 => Some(ColumnId::GVibrations),
        189 => Some(ColumnId::AbsVibrations),
        200 => Some(ColumnId::AirDensity),
        201 => Some(ColumnId::AirTemp),
        202 => Some(ColumnId::RoadTemp),
        203 => Some(ColumnId::WindSpeed),
        204 => Some(ColumnId::WindDirection),
        205 => Some(ColumnId::SurfaceGrip),
        206 => Some(ColumnId::RainIntensity),
        207 => Some(ColumnId::RainIntensityIn10min),
        208 => Some(ColumnId::RainIntensityIn30min),
        210 => Some(ColumnId::ActiveCars),
        211 => Some(ColumnId::PlayerCarId),
        212 => Some(ColumnId::CarCoordinates),
        213 => Some(ColumnId::CarId),
        _ => None,
    }
}

impl ColumnId {
    /// The numeric identifier of this column.
    pub fn as_u16(self) -> (r: u16)
        ensures
            r == column_id_value(self),
    {
        match self {
        ColumnId::SampleTick => 1,
        ColumnId::TimestampNs => 2,
        ColumnId::PhysicsPacketId => 3,
        ColumnId::GraphicsPacketId => 4,
        ColumnId::SpeedKmh => 10,
        ColumnId::Gas => 11,
        ColumnId::Brake => 12,
        ColumnId::Clutch => 13,
        ColumnId::SteerAngle => 14,
        ColumnId::Gear => 15,
        ColumnId::Rpms => 16,
        ColumnId::Fuel => 17,
        ColumnId::Velocity => 20,
        ColumnId::AccG => 21,
        ColumnId::LocalVelocity => 22,
        ColumnId::LocalAngularVel => 23,
        ColumnId::Heading => 24,
        ColumnId::Pitch => 25,
        ColumnId::Roll => 26,
        ColumnId::WheelSlip => 30,
        ColumnId::WheelLoad => 31,
        ColumnId::WheelsPressure => 32,
        ColumnId::WheelAngularSpeed => 33,
        ColumnId::TyreWear => 34,
        ColumnId::TyreDirtyLevel => 35,
        ColumnId::TyreCoreTemperature => 36,
        ColumnId::CamberRad => 37,
        ColumnId::SuspensionTravel => 38,
        ColumnId::SlipRatio => 39,
        ColumnId::SlipAngle => 40,
        ColumnId::TyreTempI => 41,
        ColumnId::TyreTempM => 42,
        ColumnId::TyreTempO => 43,
        ColumnId::TyreTemp => 44,
        ColumnId::Mz => 45,
        ColumnId::Fx => 46,
        ColumnId::Fy => 47,
        ColumnId::SuspensionDamage => 48,
        ColumnId::BrakeTemp => 49,
        ColumnId::BrakePressure => 50,
        ColumnId::PadLife => 51,
        ColumnId::DiscLife => 52,
        ColumnId::TyreContactPoint => 53,
        ColumnId::TyreContactNormal => 54,
        ColumnId::TyreContactHeading => 55,
        ColumnId::NumberOfTyresOut => 56,
        ColumnId::FrontBrakeCompound => 57,
        ColumnId::RearBrakeCompound => 58,
        ColumnId::TurboBoost => 60,
        ColumnId::Ballast => 61,
        ColumnId::KersCharge => 62,
        ColumnId::KersInput => 63,
        ColumnId::KersCurrentKj => 64,
        ColumnId::Drs => 65,
        ColumnId::TcPhysics => 66,
        ColumnId::AbsPhysics => 67,
        ColumnId::EngineBrake => 68,
        ColumnId::ErsRecoveryLevel => 69,
        ColumnId::ErsPowerLevel => 70,
        ColumnId::ErsHeatCharging => 71,
        ColumnId::ErsIsCharging => 72,
        ColumnId::DrsAvailable => 73,
        ColumnId::DrsEnabled => 74,
        ColumnId::TcInAction => 75,
        ColumnId::AbsInAction => 76,
        ColumnId::AutoShifterOn => 77,
        ColumnId::CurrentMaxRpm => 78,
        ColumnId::P2pActivations => 79,
        ColumnId::P2pStatus => 80,
        ColumnId::WaterTemp => 81,
        ColumnId::Status => 90,
        ColumnId::Session => 91,
        ColumnId::SessionIndex => 92,
        ColumnId::CompletedLaps => 93,
        ColumnId::Position => 94,
        ColumnId::SessionTimeLeft => 95,
        ColumnId::NumberOfLaps => 96,
        ColumnId::CurrentSectorIndex => 97,
        ColumnId::NormalizedCarPosition => 98,
        ColumnId::IsInPit => 99,
        ColumnId::IsInPitLane => 100,
        ColumnId::MandatoryPitDone => 101,
        ColumnId::MissingMandatoryPits => 102,
        ColumnId::PenaltyTime => 103,
        ColumnId::PenaltyType => 104,
        ColumnId::TrackStatus => 105,
        ColumnId::Clock => 106,
        ColumnId::ReplayTimeMultiplier => 107,
        ColumnId::IsValidLap => 108,
        ColumnId::GlobalYellow => 109,
        ColumnId::GlobalYellow1 => 110,
        ColumnId::GlobalYellow2 => 111,
        ColumnId::GlobalYellow3 => 112,
        ColumnId::GlobalWhite => 113,
        ColumnId::GlobalGreen => 114,
        ColumnId::GlobalChequered => 115,
        ColumnId::GlobalRed => 116,
        ColumnId::GapAheadOrTailValue => 117,
        ColumnId::Flag => 118,
        ColumnId::GapBehind => 119,
        ColumnId::ICurrentTime => 120,
        ColumnId::ILastTime => 121,
        ColumnId::IBestTime => 122,
        ColumnId::ISplit => 123,
        ColumnId::LastSectorTime => 124,
        ColumnId::IDeltaLapTime => 125,
        ColumnId::IsDeltaPositive => 126,
        ColumnId::IEstimatedLapTime => 127,
        ColumnId::FuelEstimatedLaps => 128,
        ColumnId::FuelXLap => 129,
        ColumnId::UsedFuel => 130,
        ColumnId::DistanceTraveled => 131,
        ColumnId::CurrentTimeStr => 132,
        ColumnId::LastTimeStr => 133,
        ColumnId::BestTimeStr => 134,
        ColumnId::SplitStr => 135,
        ColumnId::DeltaLapTimeStr => 136,
        ColumnId::EstimatedLapTimeStr => 137,
        ColumnId::ObservedSlotBeforeISplit => 138,
        ColumnId::CarDamage => 150,
        ColumnId::PitLimiterOn => 151,
        ColumnId::RideHeight => 152,
        ColumnId::IgnitionOn => 153,
        ColumnId::StarterEngineOn => 154,
        ColumnId::IsEngineRunning => 155,
        ColumnId::IsAiControlled => 156,
        ColumnId::CgHeight => 157,
        ColumnId::BrakeBias => 158,
        ColumnId::RainLights => 159,
        ColumnId::FlashingLights => 160,
        ColumnId::LightsStage => 161,
        ColumnId::WiperLv => 162,
        ColumnId::DriverStintTotalTimeLeft => 163,
        ColumnId::DriverStintTimeLeft => 164,
        ColumnId::RainTyres => 165,
        ColumnId::CurrentTyreSet => 166,
        ColumnId::StrategyTyreSet => 167,
        ColumnId::TrackGripStatus => 168,
        ColumnId::TyreCompoundStr => 169,
        ColumnId::MfdTyreSet => 170,
        ColumnId::MfdFuelToAdd => 171,
        ColumnId::MfdTyrePressure => 172,
        ColumnId::IdealLineOn => 173,
        ColumnId::IsSetupMenuVisible => 174,
        ColumnId::MainDisplayIndex => 175,
        ColumnId::SecondaryDisplayIndex => 176,
        ColumnId::DirectionLightsLeft => 177,
        ColumnId::DirectionLightsRight => 178,
        ColumnId::TcLevel => 179,
        ColumnId::TcCut => 180,
        ColumnId::EngineMap => 181,
        ColumnId::AbsLevel => 182,
        ColumnId::ExhaustTemperature => 183,
        ColumnId::FinalFf => 184,
        ColumnId::PerformanceMeter => 185,
        ColumnId::KerbVibration => 186,
        ColumnId::SlipVibrations => 187,
        ColumnId::GVibrations => 188,
        ColumnId::AbsVibrations => 189,
        ColumnId::AirDensity => 200,
        ColumnId::AirTemp => 201,
        ColumnId::RoadTemp => 202,
        ColumnId::WindSpeed => 203,
        ColumnId::WindDirection => 204,
        ColumnId::SurfaceGrip => 205,
        ColumnId::RainIntensity => 206,
        ColumnId::RainIntensityIn10min => 207,
        ColumnId::RainIntensityIn30min => 208,
        ColumnId::ActiveCars => 210,
        ColumnId::PlayerCarId => 211,
        ColumnId::CarCoordinates => 212,
        ColumnId::CarId => 213,
        }
    }

    /// The column with numeric identifier `id`, or `None` when no column has it.
    pub fn from_u16(id: u16) -> (r: Option<ColumnId>)
        ensures
            r == column_with_id(id),
    {
        match id {
        1 => Some(ColumnId::SampleTick),
        2 => Some(ColumnId::TimestampNs),
        3 => Some(ColumnId::PhysicsPacketId),
        4 => Some(ColumnId::GraphicsPacketId),
        10 => Some(ColumnId::SpeedKmh),
        11 => Some(ColumnId::Gas),
        12 => Some(ColumnId::Brake),
        13 => Some(ColumnId::Clutch),
        14 => Some(ColumnId::SteerAngle),
        15 => Some(ColumnId::Gear),
        16 => Some(ColumnId::Rpms),
        17 => Some(ColumnId::Fuel),
        20 => Some(ColumnId::Velocity),
        21 => Some(ColumnId::AccG),
        22 => Some(ColumnId::LocalVelocity),
        23 => Some(ColumnId::LocalAngularVel),
        24 => Some(ColumnId::Heading),
        25 => Some(ColumnId::Pitch),
        26 => Some(ColumnId::Roll),
        30 => Some(ColumnId::WheelSlip),
        31 => Some(ColumnId::WheelLoad),
        32 => Some(ColumnId::WheelsPressure),
        33 => Some(ColumnId::WheelAngularSpeed),
        34 => Some(ColumnId::TyreWear),
        35 => Some(ColumnId::TyreDirtyLevel),
        36 => Some(ColumnId::TyreCoreTemperature),
        37 => Some(ColumnId::CamberRad),
        38 => Some(ColumnId::SuspensionTravel),
        39 => Some(ColumnId::SlipRatio),
        40 => Some(ColumnId::SlipAngle),
        41 => Some(ColumnId::TyreTempI),
        42 => Some(ColumnId::TyreTempM),
        43 => Some(ColumnId::TyreTempO),
        44 => Some(ColumnId::TyreTemp),
        45 => Some(ColumnId::Mz),
        46 => Some(ColumnId::Fx),
        47 => Some(ColumnId::Fy),
        48 => Some(ColumnId::SuspensionDamage),
        49 => Some(ColumnId::BrakeTemp),
        50 => Some(ColumnId::BrakePressure),
        51 => Some(ColumnId::PadLife),
        52 => Some(ColumnId::DiscLife),
        53 => Some(ColumnId::TyreContactPoint),
        54 => Some(ColumnId::TyreContactNormal),
        55 => Some(ColumnId::TyreContactHeading),
        56 => Some(ColumnId::NumberOfTyresOut),
        57 => Some(ColumnId::FrontBrakeCompound),
        58 => Some(ColumnId::RearBrakeCompound),
        60 => Some(ColumnId::TurboBoost),
        61 => Some(ColumnId::Ballast),
        62 => Some(ColumnId::KersCharge),
        63 => Some(ColumnId::KersInput),
        64 => Some(ColumnId::KersCurrentKj),
        65 => Some(ColumnId::Drs),
        66 => Some(ColumnId::TcPhysics),
        67 => Some(ColumnId::AbsPhysics),
        68 => Some(ColumnId::EngineBrake),
        69 => Some(ColumnId::ErsRecoveryLevel),
        70 => Some(ColumnId::ErsPowerLevel),
        71 => Some(ColumnId::ErsHeatCharging),
        72 => Some(ColumnId::ErsIsCharging),
        73 => Some(ColumnId::DrsAvailable),
        74 => Some(ColumnId::DrsEnabled),
        75 => Some(ColumnId::TcInAction),
        76 => Some(ColumnId::AbsInAction),
        77 => Some(ColumnId::AutoShifterOn),
        78 => Some(ColumnId::CurrentMaxRpm),
        79 => Some(ColumnId::P2pActivations),
        80 => Some(ColumnId::P2pStatus),
        81 => Some(ColumnId::WaterTemp),
        90 => Some(ColumnId::Status),
        91 => Some(ColumnId::Session),
        92 => Some(ColumnId::SessionIndex),
        93 => Some(ColumnId::CompletedLaps),
        94 => Some(ColumnId::Position),
        95 => Some(ColumnId::SessionTimeLeft),
        96 => Some(ColumnId::NumberOfLaps),
        97 => Some(ColumnId::CurrentSectorIndex),
        98 => Some(ColumnId::NormalizedCarPosition),
        99 => Some(ColumnId::IsInPit),
        100 => Some(ColumnId::IsInPitLane),
        101 => Some(ColumnId::MandatoryPitDone),
        102 => Some(ColumnId::MissingMandatoryPits),
        103 => Some(ColumnId::PenaltyTime),
        104 => Some(ColumnId::PenaltyType),
        105 => Some(ColumnId::TrackStatus),
        106 => Some(ColumnId::Clock),
        107 => Some(ColumnId::ReplayTimeMultiplier),
        108 => Some(ColumnId::IsValidLap),
        109 => Some(ColumnId::GlobalYellow),
        110 => Some(ColumnId::GlobalYellow1),
        111 => Some(ColumnId::GlobalYellow2),
        112 => Some(ColumnId::GlobalYellow3),
        113 => Some(ColumnId::GlobalWhite),
        114 => Some(ColumnId::GlobalGreen),
        115 => Some(ColumnId::GlobalChequered),
        116 => Some(ColumnId::GlobalRed),
        117 => Some(ColumnId::GapAheadOrTailValue),
        118 => Some(ColumnId::Flag),
        119 => Some(ColumnId::GapBehind),
        120 => Some(ColumnId::ICurrentTime),
        121 => Some(ColumnId::ILastTime),
        122 => Some(ColumnId::IBestTime),
        123 => Some(ColumnId::ISplit),
        124 => Some(ColumnId::LastSectorTime),
        125 => Some(ColumnId::IDeltaLapTime),
        126 => Some(ColumnId::IsDeltaPositive),
        127 => Some(ColumnId::IEstimatedLapTime),
        128 => Some(ColumnId::FuelEstimatedLaps),
        129 => Some(ColumnId::FuelXLap),
        130 => Some(ColumnId::UsedFuel),
        131 => Some(ColumnId::DistanceTraveled),
        132 => Some(ColumnId::CurrentTimeStr),
        133 => Some(ColumnId::LastTimeStr),
        134 => Some(ColumnId::BestTimeStr),
        135 => Some(ColumnId::SplitStr),
        136 => Some(ColumnId::DeltaLapTimeStr),
        137 => Some(ColumnId::EstimatedLapTimeStr),
        138 => Some(ColumnId::ObservedSlotBeforeISplit),
        150 => Some(ColumnId::CarDamage),
        151 => Some(ColumnId::PitLimiterOn),
        152 => Some(ColumnId::RideHeight),
        153 => Some(ColumnId::IgnitionOn),
        154 => Some(ColumnId::StarterEngineOn),
        155 => Some(ColumnId::IsEngineRunning),
        156 => Some(ColumnId::IsAiControlled),
        157 => Some(ColumnId::CgHeight),
        158 => Some(ColumnId::BrakeBias),
        159 => Some(ColumnId::RainLights),
        160 => Some(ColumnId::FlashingLights),
        161 => Some(ColumnId::LightsStage),
        162 => Some(ColumnId::WiperLv),
        163 => Some(ColumnId::DriverStintTotalTimeLeft),
        164 => Some(ColumnId::DriverStintTimeLeft),
        165 => Some(ColumnId::RainTyres),
        166 => Some(ColumnId::CurrentTyreSet),
        167 => Some(ColumnId::StrategyTyreSet),
        168 => Some(ColumnId::TrackGripStatus),
        169 => Some(ColumnId::TyreCompoundStr),
        170 => Some(ColumnId::MfdTyreSet),
        171 => Some(ColumnId::MfdFuelToAdd),
        172 => Some(ColumnId::MfdTyrePressure),
        173 => Some(ColumnId::IdealLineOn),
        174 => Some(ColumnId::IsSetupMenuVisible),
        175 => Some(ColumnId::MainDisplayIndex),
        176 => Some(ColumnId::SecondaryDisplayIndex),
        177 => Some(ColumnId::DirectionLightsLeft),
        178 => Some(ColumnId::DirectionLightsRight),
        179 => Some(ColumnId::TcLevel),
        180 => Some(ColumnId::TcCut),
        181 => Some(ColumnId::EngineMap),
        182 => Some(ColumnId::AbsLevel),
        183 => Some(ColumnId::ExhaustTemperature),
        184 => Some(ColumnId::FinalFf),
        185 => Some(ColumnId::PerformanceMeter),
        186 => Some(ColumnId::KerbVibration),
        187 => Some(ColumnId::SlipVibrations),
        188 => Some(ColumnId::GVibrations),
        189 => Some(ColumnId::AbsVibrations),
        200 => Some(ColumnId::AirDensity),
        201 => Some(ColumnId::AirTemp),
        202 => Some(ColumnId::RoadTemp),
        203 => Some(ColumnId::WindSpeed),
        204 => Some(ColumnId::WindDirection),
        205 => Some(ColumnId::SurfaceGrip),
        206 => Some(ColumnId::RainIntensity),
        207 => Some(ColumnId::RainIntensityIn10min),
        208 => Some(ColumnId::RainIntensityIn30min),
        210 => Some(ColumnId::ActiveCars),
        211 => Some(ColumnId::PlayerCarId),
        212 => Some(ColumnId::CarCoordinates),
        213 => Some(ColumnId::CarId),
            _ => None,
        }
    }
}

/// Each column's identifier leads back to that column: identifiers are
/// distinct.
pub proof fn lemma_column_id_roundtrip(c: ColumnId)
    ensures
        column_with_id(column_id_value(c)) == Some(c),
{
}

/// The access group that holds the column with identifier `id`, by the
/// identifier ranges of the catalog; `None` outside every range.
pub open spec fn group_of_id(id: u16) -> Option<GroupId> {
    if 1 <= id <= 4 {
        Some(GroupId::FrameMeta)
    } else if (10 <= id <= 17) || (60 <= id <= 81) {
        Some(GroupId::DriverInputs)
    } else if 20 <= id <= 26 {
        Some(GroupId::VehicleDynamics)
    } else if 30 <= id <= 58 {
        Some(GroupId::Tyres)
    } else if (93 <= id <= 94) || (96 <= id <= 99) || id == 108 || (120 <= id <= 138) {
        Some(GroupId::Timing)
    } else if (90 <= id <= 91) || id == 95 || (106 <= id <= 107) || (200 <= id <= 208) {
        Some(GroupId::Environment)
    } else if id == 92 || (100 <= id <= 105) || (109 <= id <= 119) || (150 <= id <= 189) || (210 <= id <= 213) {
        Some(GroupId::ColdStorage)
    } else {
        None
    }
}

/// The access group of a column. Every column lies in one of the ranges.
pub fn column_group(col: ColumnId) -> (g: GroupId)
    ensures
        group_of_id(column_id_value(col)) == Some(g),
{
    let id = col.as_u16();
    if 1 <= id && id <= 4 {
        GroupId::FrameMeta
    } else if (10 <= id && id <= 17) || (60 <= id && id <= 81) {
        GroupId::DriverInputs
    } else if 20 <= id && id <= 26 {
        GroupId::VehicleDynamics
    } else if 30 <= id && id <= 58 {
        GroupId::Tyres
    } else if (93 <= id && id <= 94) || (96 <= id && id <= 99) || id == 108 || (120 <= id && id <= 138) {
        GroupId::Timing
    } else if (90 <= id && id <= 91) || id == 95 || (106 <= id && id <= 107) || (200 <= id && id <= 208) {
        GroupId::Environment
    } else {
        GroupId::ColdStorage
    }
}

} // verus!

use vstd::bytes::*;
use crate::codec::{
    get_i32, get_u16, get_u32, get_u64, i32_at, le_i32, lemma_at_in_window, lemma_le_roundtrip,
    lemma_read_written, put_i32, put_u16, put_u32, put_u64, put_zeros, read_u16, u16_at, u32_at,
    u64_at, zeros, ByteReader,
};
use crate::error::{error_matches, is_eof_error, read_outcome, read_outcome_seq, ErrorDesc, TelemetryError, TelemetryResult};
use crate::text::{decimal, push_decimal, text_with_number};
use vstd::string::*;

verus! {

/// Unsigned 64-bit integer.
pub const TYPE_U64: u8 = 0x01;
/// Signed 32-bit integer.
pub const TYPE_I32: u8 = 0x02;
/// 32-bit float.
pub const TYPE_F32: u8 = 0x03;
/// 64-bit float.
pub const TYPE_F64: u8 = 0x04;
/// Variable-length byte blob.
pub const TYPE_BYTES: u8 = 0x05;
/// Byte blob of `f32` sub-values.
pub const TYPE_BYTES_F32: u8 = 0x06;
/// Byte blob of `u16` sub-values.
pub const TYPE_BYTES_U16: u8 = 0x07;
/// Byte blob of `i32` sub-values.
pub const TYPE_BYTES_I32: u8 = 0x08;

pub const HEADER_V2_SIZE: usize = 64;
pub const ROW_GROUP_HEADER_SIZE: usize = 32;
pub const COLUMN_ENTRY_V2_SIZE: usize = 40;

/// `s` starts with the four bytes `a b c d`.
pub open spec fn starts_with4(s: Seq<u8>, a: u8, b: u8, c: u8, d: u8) -> bool {
    s.len() >= 4 && s[0] == a && s[1] == b && s[2] == c && s[3] == d
}

/// Read four bytes and tell whether they are `a b c d`.
fn read_magic(reader: &mut ByteReader, a: u8, b: u8, c: u8, d: u8) -> (r: TelemetryResult<bool>)
    ensures
        match r {
            Ok(ok) => old(reader).rest().len() >= 4
                && ok == starts_with4(old(reader).rest(), a, b, c, d)
                && final(reader).rest() == old(reader).rest().subrange(4, old(reader).rest().len() as int),
            Err(e) => old(reader).rest().len() < 4 && is_eof_error(e),
        },
{
    let m = reader.read_exact(4)?;
    Ok(m[0] == a && m[1] == b && m[2] == c && m[3] == d)
}

/// Stepping a reader whose rest is a suffix of `s` keeps it a suffix.
proof fn lemma_advance(s: Seq<u8>, k: int, n: int)
    requires
        0 <= k,
        0 <= n,
        k + n <= s.len(),
    ensures
        s.subrange(k, s.len() as int).subrange(0, n) == s.subrange(k, k + n),
        s.subrange(k, s.len() as int).subrange(n, s.len() - k) == s.subrange(k + n, s.len() as int),
{
    assert(s.subrange(k, s.len() as int).subrange(0, n) =~= s.subrange(k, k + n));
    assert(s.subrange(k, s.len() as int).subrange(n, s.len() - k) =~= s.subrange(k + n, s.len() as int));
}

// ---------------------------------------------------------------------------
// FileHeaderV2
// ---------------------------------------------------------------------------

/// The 64-byte v2 file header.
#[derive(Debug, Clone, PartialEq, Eq)]
pub struct FileHeaderV2 {
    pub schema_offset: u64,
    pub metadata_offset: u64,
    pub first_row_group_offset: u64,
    pub footer_offset: u64,
    pub created_unix_ns: u64,
    pub poll_hz: u32,
}

impl FileHeaderV2 {
    /// Layout: `ACT2`, version 2, the five offsets and times, `poll_hz`,
    /// fourteen zero bytes.
    pub open spec fn spec_bytes(self) -> Seq<u8> {
        seq![65u8, 67u8, 84u8, 50u8] + spec_u16_to_le_bytes(2)
            + spec_u64_to_le_bytes(self.schema_offset) + spec_u64_to_le_bytes(self.metadata_offset)
            + spec_u64_to_le_bytes(self.first_row_group_offset) + spec_u64_to_le_bytes(self.footer_offset)
            + spec_u64_to_le_bytes(self.created_unix_ns) + spec_u32_to_le_bytes(self.poll_hz) + zeros(14)
    }

    /// What reading a header from `s` gives: the magic is checked first,
    /// then the version, then the remaining 58 bytes must be present.
    pub open spec fn spec_read(s: Seq<u8>) -> Result<(FileHeaderV2, nat), ErrorDesc> {
        if s.len() < 4 {
            Err(ErrorDesc::Eof)
        } else if !starts_with4(s, 65, 67, 84, 50) {
            Err(ErrorDesc::Format("bad v2 file header magic"@))
        } else if s.len() < 6 {
            Err(ErrorDesc::Eof)
        } else if u16_at(s, 4) != 2 {
            Err(ErrorDesc::Format("unsupported v2 format version: "@ + decimal(u16_at(s, 4) as nat)))
        } else if s.len() < 64 {
            Err(ErrorDesc::Eof)
        } else {
            Ok((FileHeaderV2 {
                schema_offset: u64_at(s, 6),
                metadata_offset: u64_at(s, 14),
                first_row_group_offset: u64_at(s, 22),
                footer_offset: u64_at(s, 30),
                created_unix_ns: u64_at(s, 38),
                poll_hz: u32_at(s, 46),
            }, 64))
        }
    }

    /// Append the 64 header bytes.
    pub fn write_to(&self, writer: &mut Vec<u8>) -> (r: TelemetryResult<()>)
        ensures
            r is Ok,
            final(writer)@ == old(writer)@ + self.spec_bytes(),
    {
        let ghost start = writer@;
        writer.push(65u8);
        writer.push(67u8);
        writer.push(84u8);
        writer.push(50u8);
        assert(writer@ =~= start + seq![65u8, 67u8, 84u8, 50u8]);
        put_u16(writer, 2);
        put_u64(writer, self.schema_offset);
        put_u64(writer, self.metadata_offset);
        put_u64(writer, self.first_row_group_offset);
        put_u64(writer, self.footer_offset);
        put_u64(writer, self.created_unix_ns);
        put_u32(writer, self.poll_hz);
        put_zeros(writer, 14);
        assert(writer@ =~= start + self.spec_bytes());
        Ok(())
    }

    /// Read a header.
    pub fn read_from(reader: &mut ByteReader) -> (r: TelemetryResult<Self>)
        ensures
            read_outcome(r, old(reader).rest(), final(reader).rest(), Self::spec_read(old(reader).rest())),
    {
        let ghost s = reader.rest();
        let ok = read_magic(reader, 65, 67, 84, 50)?;
        if !ok {
            return Err(TelemetryError::invalid_format("bad v2 file header magic"));
        }
        let version = read_u16(reader)?;
        proof {
            lemma_advance(s, 4, 2);
        }
        if version != 2 {
            return Err(TelemetryError::InvalidFormat(text_with_number("unsupported v2 format version: ", version as u64)));
        }
        let b = reader.read_exact(58)?;
        proof {
            lemma_advance(s, 6, 58);
            lemma_at_in_window(s, 6, 64);
        }
        Ok(FileHeaderV2 {
            schema_offset: get_u64(b, 0),
            metadata_offset: get_u64(b, 8),
            first_row_group_offset: get_u64(b, 16),
            footer_offset: get_u64(b, 24),
            created_unix_ns: get_u64(b, 32),
            poll_hz: get_u32(b, 40),
        })
    }
}

/// Reading a written header gives it back and consumes exactly its bytes.
pub proof fn lemma_header_v2_roundtrip(h: FileHeaderV2, rest: Seq<u8>)
    ensures
        h.spec_bytes().len() == HEADER_V2_SIZE,
        FileHeaderV2::spec_read(h.spec_bytes() + rest) == Ok::<(FileHeaderV2, nat), ErrorDesc>((h, 64)),
{
    lemma_le_roundtrip(rest);
    let s = h.spec_bytes() + rest;
    lemma_read_written(s, 4);
    lemma_read_written(s, 6);
    lemma_read_written(s, 14);
    lemma_read_written(s, 22);
    lemma_read_written(s, 30);
    lemma_read_written(s, 38);
    lemma_read_written(s, 46);
    assert(s.subrange(4, 6) =~= spec_u16_to_le_bytes(2));
    assert(s.subrange(6, 14) =~= spec_u64_to_le_bytes(h.schema_offset));
    assert(s.subrange(14, 22) =~= spec_u64_to_le_bytes(h.metadata_offset));
    assert(s.subrange(22, 30) =~= spec_u64_to_le_bytes(h.first_row_group_offset));
    assert(s.subrange(30, 38) =~= spec_u64_to_le_bytes(h.footer_offset));
    assert(s.subrange(38, 46) =~= spec_u64_to_le_bytes(h.created_unix_ns));
    assert(s.subrange(46, 50) =~= spec_u32_to_le_bytes(h.poll_hz));
}

} // verus!

verus! {

// ---------------------------------------------------------------------------
// SkipIndexEntry
// ---------------------------------------------------------------------------

/// A skip-index entry: a column's frame window and where its bytes lie
/// within a row group.
#[derive(Debug, Clone, Copy, PartialEq, Eq)]
pub struct SkipIndexEntry {
    pub access_group: u16,
    pub column_id: u16,
    pub frame_start: u64,
    pub frame_end: u64,
    pub row_group_index: u32,
    pub offset_in_group: u32,
    pub byte_len: u32,
}

impl SkipIndexEntry {
    pub const BYTE_LEN: usize = 32;

    /// Layout: the seven fields in order, little-endian.
    pub open spec fn spec_bytes(self) -> Seq<u8> {
        spec_u16_to_le_bytes(self.access_group) + spec_u16_to_le_bytes(self.column_id)
            + spec_u64_to_le_bytes(self.frame_start) + spec_u64_to_le_bytes(self.frame_end)
            + spec_u32_to_le_bytes(self.row_group_index) + spec_u32_to_le_bytes(self.offset_in_group)
            + spec_u32_to_le_bytes(self.byte_len)
    }

    /// The entry stored in the first 32 bytes of `s`.
    pub open spec fn spec_decode(s: Seq<u8>) -> SkipIndexEntry {
        SkipIndexEntry {
            access_group: u16_at(s, 0),
            column_id: u16_at(s, 2),
            frame_start: u64_at(s, 4),
            frame_end: u64_at(s, 12),
            row_group_index: u32_at(s, 20),
            offset_in_group: u32_at(s, 24),
            byte_len: u32_at(s, 28),
        }
    }

    /// What reading an entry from `s` gives.
    pub open spec fn spec_read(s: Seq<u8>) -> Result<(SkipIndexEntry, nat), ErrorDesc> {
        if s.len() < 32 { Err(ErrorDesc::Eof) } else { Ok((Self::spec_decode(s), 32)) }
    }

    /// Append the 32 entry bytes.
    pub fn write_to(&self, writer: &mut Vec<u8>) -> (r: TelemetryResult<()>)
        ensures
            r is Ok,
            final(writer)@ == old(writer)@ + self.spec_bytes(),
    {
        let ghost start = writer@;
        put_u16(writer, self.access_group);
        put_u16(writer, self.column_id);
        put_u64(writer, self.frame_start);
        put_u64(writer, self.frame_end);
        put_u32(writer, self.row_group_index);
        put_u32(writer, self.offset_in_group);
        put_u32(writer, self.byte_len);
        assert(writer@ =~= start + self.spec_bytes());
        Ok(())
    }

    /// Decode the entry in the first 32 bytes of `b`.
    fn decode(b: &[u8]) -> (e: SkipIndexEntry)
        requires
            b@.len() >= 32,
        ensures
            e == Self::spec_decode(b@),
    {
        SkipIndexEntry {
            access_group: get_u16(b, 0),
            column_id: get_u16(b, 2),
            frame_start: get_u64(b, 4),
            frame_end: get_u64(b, 12),
            row_group_index: get_u32(b, 20),
            offset_in_group: get_u32(b, 24),
            byte_len: get_u32(b, 28),
        }
    }

    /// Read an entry.
    pub fn read_from(reader: &mut ByteReader) -> (r: TelemetryResult<Self>)
        ensures
            read_outcome(r, old(reader).rest(), final(reader).rest(), Self::spec_read(old(reader).rest())),
    {
        let ghost s = reader.rest();
        let b = reader.read_exact(32)?;
        proof { lemma_at_in_window(s, 0, 32); }
        Ok(Self::decode(b))
    }
}

/// Reading a written skip-index entry gives it back.
pub proof fn lemma_skip_entry_roundtrip(e: SkipIndexEntry, rest: Seq<u8>)
    ensures
        e.spec_bytes().len() == SkipIndexEntry::BYTE_LEN,
        SkipIndexEntry::spec_read(e.spec_bytes() + rest) == Ok::<(SkipIndexEntry, nat), ErrorDesc>((e, 32)),
{
    lemma_le_roundtrip(rest);
    let s = e.spec_bytes() + rest;
    lemma_read_written(s, 0);
    lemma_read_written(s, 2);
    lemma_read_written(s, 4);
    lemma_read_written(s, 12);
    lemma_read_written(s, 20);
    lemma_read_written(s, 24);
    lemma_read_written(s, 28);
    assert(s.subrange(0, 2) =~= spec_u16_to_le_bytes(e.access_group));
    assert(s.subrange(2, 4) =~= spec_u16_to_le_bytes(e.column_id));
    assert(s.subrange(4, 12) =~= spec_u64_to_le_bytes(e.frame_start));
    assert(s.subrange(12, 20) =~= spec_u64_to_le_bytes(e.frame_end));
    assert(s.subrange(20, 24) =~= spec_u32_to_le_bytes(e.row_group_index));
    assert(s.subrange(24, 28) =~= spec_u32_to_le_bytes(e.offset_in_group));
    assert(s.subrange(28, 32) =~= spec_u32_to_le_bytes(e.byte_len));
}

// ---------------------------------------------------------------------------
// LapIndexEntryV2
// ---------------------------------------------------------------------------

/// A lap-index entry (32 bytes).
#[derive(Debug, Clone, Copy, PartialEq, Eq)]
pub struct LapIndexEntryV2 {
    pub lap_number: i32,
    pub start_tick: u64,
    pub end_tick: u64,
    pub sample_count: u32,
    pub is_valid: i32,
    pub is_out_lap: i32,
}

impl LapIndexEntryV2 {
    pub const BYTE_LEN: usize = 32;

    /// Layout: the six fields in order, little-endian.
    pub open spec fn spec_bytes(self) -> Seq<u8> {
        le_i32(self.lap_number) + spec_u64_to_le_bytes(self.start_tick)
            + spec_u64_to_le_bytes(self.end_tick) + spec_u32_to_le_bytes(self.sample_count)
            + le_i32(self.is_valid) + le_i32(self.is_out_lap)
    }

    /// The entry stored in the first 32 bytes of `s`.
    pub open spec fn spec_decode(s: Seq<u8>) -> LapIndexEntryV2 {
        LapIndexEntryV2 {
            lap_number: i32_at(s, 0),
            start_tick: u64_at(s, 4),
            end_tick: u64_at(s, 12),
            sample_count: u32_at(s, 20),
            is_valid: i32_at(s, 24),
            is_out_lap: i32_at(s, 28),
        }
    }

    /// What reading an entry from `s` gives.
    pub open spec fn spec_read(s: Seq<u8>) -> Result<(LapIndexEntryV2, nat), ErrorDesc> {
        if s.len() < 32 { Err(ErrorDesc::Eof) } else { Ok((Self::spec_decode(s), 32)) }
    }

    /// Append the 32 entry bytes.
    pub fn write_to(&self, writer: &mut Vec<u8>) -> (r: TelemetryResult<()>)
        ensures
            r is Ok,
            final(writer)@ == old(writer)@ + self.spec_bytes(),
    {
        let ghost start = writer@;
        put_i32(writer, self.lap_number);
        put_u64(writer, self.start_tick);
        put_u64(writer, self.end_tick);
        put_u32(writer, self.sample_count);
        put_i32(writer, self.is_valid);
        put_i32(writer, self.is_out_lap);
        assert(writer@ =~= start + self.spec_bytes());
        Ok(())
    }

    fn decode(b: &[u8]) -> (e: LapIndexEntryV2)
        requires
            b@.len() >= 32,
        ensures
            e == Self::spec_decode(b@),
    {
        LapIndexEntryV2 {
            lap_number: get_i32(b, 0),
            start_tick: get_u64(b, 4),
            end_tick: get_u64(b, 12),
            sample_count: get_u32(b, 20),
            is_valid: get_i32(b, 24),
            is_out_lap: get_i32(b, 28),
        }
    }

    /// Read an entry.
    pub fn read_from(reader: &mut ByteReader) -> (r: TelemetryResult<Self>)
        ensures
            read_outcome(r, old(reader).rest(), final(reader).rest(), Self::spec_read(old(reader).rest())),
    {
        let ghost s = reader.rest();
        let b = reader.read_exact(32)?;
        proof { lemma_at_in_window(s, 0, 32); }
        Ok(Self::decode(b))
    }
}

/// Reading a written lap-index entry gives it back.
pub proof fn lemma_lap_entry_roundtrip(e: LapIndexEntryV2, rest: Seq<u8>)
    ensures
        e.spec_bytes().len() == LapIndexEntryV2::BYTE_LEN,
        LapIndexEntryV2::spec_read(e.spec_bytes() + rest) == Ok::<(LapIndexEntryV2, nat), ErrorDesc>((e, 32)),
{
    lemma_le_roundtrip(rest);
    let s = e.spec_bytes() + rest;
    lemma_read_written(s, 0);
    lemma_read_written(s, 4);
    lemma_read_written(s, 12);
    lemma_read_written(s, 20);
    lemma_read_written(s, 24);
    lemma_read_written(s, 28);
    assert(s.subrange(0, 4) =~= le_i32(e.lap_number));
    assert(s.subrange(4, 12) =~= spec_u64_to_le_bytes(e.start_tick));
    assert(s.subrange(12, 20) =~= spec_u64_to_le_bytes(e.end_tick));
    assert(s.subrange(20, 24) =~= spec_u32_to_le_bytes(e.sample_count));
    assert(s.subrange(24, 28) =~= le_i32(e.is_valid));
    assert(s.subrange(28, 32) =~= le_i32(e.is_out_lap));
}

// ---------------------------------------------------------------------------
// ColumnEntryV2
// ---------------------------------------------------------------------------

/// A column entry (40 bytes): a column's codec, type, length, checksum and
/// value range. The range bounds are kept as the bit patterns of the `f64`
/// values that the file stores.
#[derive(Debug, Clone, Copy, PartialEq, Eq)]
pub struct ColumnEntryV2 {
    pub column_id: u16,
    pub codec: u8,
    pub value_type: u8,
    pub byte_len: u32,
    pub crc32: u32,
    pub min_value_bits: u64,
    pub max_value_bits: u64,
}

impl ColumnEntryV2 {
    /// Layout: id, codec, type, length, checksum, the two bounds, twelve
    /// zero bytes.
    pub open spec fn spec_bytes(self) -> Seq<u8> {
        spec_u16_to_le_bytes(self.column_id) + seq![self.codec, self.value_type]
            + spec_u32_to_le_bytes(self.byte_len) + spec_u32_to_le_bytes(self.crc32)
            + spec_u64_to_le_bytes(self.min_value_bits) + spec_u64_to_le_bytes(self.max_value_bits)
            + zeros(12)
    }

    /// The entry stored in the first 40 bytes of `s`.
    pub open spec fn spec_decode(s: Seq<u8>) -> ColumnEntryV2 {
        ColumnEntryV2 {
            column_id: u16_at(s, 0),
            codec: s[2],
            value_type: s[3],
            byte_len: u32_at(s, 4),
            crc32: u32_at(s, 8),
            min_value_bits: u64_at(s, 12),
            max_value_bits: u64_at(s, 20),
        }
    }

    /// What reading an entry from `s` gives.
    pub open spec fn spec_read(s: Seq<u8>) -> Result<(ColumnEntryV2, nat), ErrorDesc> {
        if s.len() < 40 { Err(ErrorDesc::Eof) } else { Ok((Self::spec_decode(s), 40)) }
    }

    /// Append the 40 entry bytes.
    pub fn write_to(&self, writer: &mut Vec<u8>) -> (r: TelemetryResult<()>)
        ensures
            r is Ok,
            final(writer)@ == old(writer)@ + self.spec_bytes(),
    {
        let ghost start = writer@;
        put_u16(writer, self.column_id);
        writer.push(self.codec);
        writer.push(self.value_type);
        put_u32(writer, self.byte_len);
        put_u32(writer, self.crc32);
        put_u64(writer, self.min_value_bits);
        put_u64(writer, self.max_value_bits);
        put_zeros(writer, 12);
        assert(writer@ =~= start + self.spec_bytes());
        Ok(())
    }

    /// Read an entry.
    pub fn read_from(reader: &mut ByteReader) -> (r: TelemetryResult<Self>)
        ensures
            read_outcome(r, old(reader).rest(), final(reader).rest(), Self::spec_read(old(reader).rest())),
    {
        let ghost s = reader.rest();
        let b = reader.read_exact(40)?;
        proof { lemma_at_in_window(s, 0, 40); }
        Ok(ColumnEntryV2 {
            column_id: get_u16(b, 0),
            codec: b[2],
            value_type: b[3],
            byte_len: get_u32(b, 4),
            crc32: get_u32(b, 8),
            min_value_bits: get_u64(b, 12),
            max_value_bits: get_u64(b, 20),
        })
    }
}

/// Reading a written column entry gives it back.
pub proof fn lemma_column_entry_v2_roundtrip(e: ColumnEntryV2, rest: Seq<u8>)
    ensures
        e.spec_bytes().len() == COLUMN_ENTRY_V2_SIZE,
        ColumnEntryV2::spec_read(e.spec_bytes() + rest) == Ok::<(ColumnEntryV2, nat), ErrorDesc>((e, 40)),
{
    lemma_le_roundtrip(rest);
    let s = e.spec_bytes() + rest;
    lemma_read_written(s, 0);
    lemma_read_written(s, 4);
    lemma_read_written(s, 8);
    lemma_read_written(s, 12);
    lemma_read_written(s, 20);
    assert(s.subrange(0, 2) =~= spec_u16_to_le_bytes(e.column_id));
    assert(s.subrange(4, 8) =~= spec_u32_to_le_bytes(e.byte_len));
    assert(s.subrange(8, 12) =~= spec_u32_to_le_bytes(e.crc32));
    assert(s.subrange(12, 20) =~= spec_u64_to_le_bytes(e.min_value_bits));
    assert(s.subrange(20, 28) =~= spec_u64_to_le_bytes(e.max_value_bits));
}

} // verus!

verus! {

// ---------------------------------------------------------------------------
// FooterV2
// ---------------------------------------------------------------------------

/// Bytes of consecutive skip-index entries.
pub open spec fn skip_entries_bytes(es: Seq<SkipIndexEntry>) -> Seq<u8>
    decreases es.len(),
{
    if es.len() == 0 { Seq::empty() } else { skip_entries_bytes(es.drop_last()) + es.last().spec_bytes() }
}

/// Bytes of consecutive lap-index entries.
pub open spec fn lap_entries_bytes(es: Seq<LapIndexEntryV2>) -> Seq<u8>
    decreases es.len(),
{
    if es.len() == 0 { Seq::empty() } else { lap_entries_bytes(es.drop_last()) + es.last().spec_bytes() }
}

/// `count` consecutive 32-byte skip-index entries at the start of `s`.
pub open spec fn spec_read_skip_entries(s: Seq<u8>, count: nat) -> Result<(Seq<SkipIndexEntry>, nat), ErrorDesc> {
    if s.len() < 32 * count {
        Err(ErrorDesc::Eof)
    } else {
        Ok((Seq::new(count, |i: int| SkipIndexEntry::spec_decode(s.subrange(32 * i, s.len() as int))), 32 * count))
    }
}

/// `count` consecutive 32-byte lap-index entries at the start of `s`.
pub open spec fn spec_read_lap_entries(s: Seq<u8>, count: nat) -> Result<(Seq<LapIndexEntryV2>, nat), ErrorDesc> {
    if s.len() < 32 * count {
        Err(ErrorDesc::Eof)
    } else {
        Ok((Seq::new(count, |i: int| LapIndexEntryV2::spec_decode(s.subrange(32 * i, s.len() as int))), 32 * count))
    }
}

/// `prefix`, the expected count, ` got `, the actual count.
fn count_mismatch_message(prefix: &str, expected: u64, got: u64) -> (m: String)
    ensures
        m@ == prefix@ + decimal(expected as nat) + " got "@ + decimal(got as nat),
{
    let mut m = String::from_str(prefix);
    push_decimal(&mut m, expected);
    m.append(" got ");
    push_decimal(&mut m, got);
    m
}

/// The v2 footer: its own offset and the two index counts.
#[derive(Debug, Clone, PartialEq, Eq)]
pub struct FooterV2 {
    pub footer_offset: u64,
    pub skip_index_count: u32,
    pub lap_index_count: u32,
}

impl FooterV2 {
    pub const FIXED_SIZE: usize = 20;

    /// Layout: `FTR2`, the footer offset, the two counts.
    pub open spec fn spec_bytes(self) -> Seq<u8> {
        seq![70u8, 84u8, 82u8, 50u8] + spec_u64_to_le_bytes(self.footer_offset)
            + spec_u32_to_le_bytes(self.skip_index_count) + spec_u32_to_le_bytes(self.lap_index_count)
    }

    /// What reading a footer from `s` gives: magic first, then 16 bytes.
    pub open spec fn spec_read(s: Seq<u8>) -> Result<(FooterV2, nat), ErrorDesc> {
        if s.len() < 4 {
            Err(ErrorDesc::Eof)
        } else if !starts_with4(s, 70, 84, 82, 50) {
            Err(ErrorDesc::Format("bad footer magic"@))
        } else if s.len() < 20 {
            Err(ErrorDesc::Eof)
        } else {
            Ok((FooterV2 { footer_offset: u64_at(s, 4), skip_index_count: u32_at(s, 12), lap_index_count: u32_at(s, 16) }, 20))
        }
    }

    /// Append the 20 footer bytes.
    pub fn write_to(&self, writer: &mut Vec<u8>) -> (r: TelemetryResult<()>)
        ensures
            r is Ok,
            final(writer)@ == old(writer)@ + self.spec_bytes(),
    {
        let ghost start = writer@;
        writer.push(70u8);
        writer.push(84u8);
        writer.push(82u8);
        writer.push(50u8);
        assert(writer@ =~= start + seq![70u8, 84u8, 82u8, 50u8]);
        put_u64(writer, self.footer_offset);
        put_u32(writer, self.skip_index_count);
        put_u32(writer, self.lap_index_count);
        assert(writer@ =~= start + self.spec_bytes());
        Ok(())
    }

    /// Read a footer.
    pub fn read_from(reader: &mut ByteReader) -> (r: TelemetryResult<Self>)
        ensures
            read_outcome(r, old(reader).rest(), final(reader).rest(), Self::spec_read(old(reader).rest())),
    {
        let ghost s = reader.rest();
        let ok = read_magic(reader, 70, 84, 82, 50)?;
        if !ok {
            return Err(TelemetryError::invalid_format("bad footer magic"));
        }
        let b = reader.read_exact(16)?;
        proof {
            lemma_advance(s, 4, 16);
            lemma_at_in_window(s, 4, 20);
        }
        Ok(FooterV2 { footer_offset: get_u64(b, 0), skip_index_count: get_u32(b, 8), lap_index_count: get_u32(b, 12) })
    }

    /// Read the `skip_index_count` skip-index entries that follow.
    pub fn read_skip_entries(&self, reader: &mut ByteReader) -> (r: TelemetryResult<Vec<SkipIndexEntry>>)
        ensures
            read_outcome_seq(r, old(reader).rest(), final(reader).rest(),
                spec_read_skip_entries(old(reader).rest(), self.skip_index_count as nat)),
    {
        let ghost s = reader.rest();
        let mut entries: Vec<SkipIndexEntry> = Vec::new();
        let mut i: u32 = 0;
        while i < self.skip_index_count
            invariant
                i <= self.skip_index_count,
                s == old(reader).rest(),
                32 * i <= s.len(),
                reader.rest() == s.subrange(32 * i, s.len() as int),
                entries@ == Seq::new(i as nat, |j: int| SkipIndexEntry::spec_decode(s.subrange(32 * j, s.len() as int))),
            decreases self.skip_index_count - i,
        {
            let ghost before = reader.rest();
            let e = match SkipIndexEntry::read_from(reader) {
                Ok(e) => e,
                Err(err) => {
                    assert(before.len() < 32);
                    assert(s.len() < 32 * (self.skip_index_count as nat));
                    assert(error_matches(err, ErrorDesc::Eof));
                    assert(spec_read_skip_entries(s, self.skip_index_count as nat) is Err);
                    return Err(err);
                }
            };
            proof { lemma_advance(s, 32 * i, 32); }
            entries.push(e);
            i = i + 1;
            assert(entries@ =~= Seq::new(i as nat, |j: int| SkipIndexEntry::spec_decode(s.subrange(32 * j, s.len() as int))));
        }
        Ok(entries)
    }

    /// Read the `lap_index_count` lap-index entries that follow.
    pub fn read_lap_entries(&self, reader: &mut ByteReader) -> (r: TelemetryResult<Vec<LapIndexEntryV2>>)
        ensures
            read_outcome_seq(r, old(reader).rest(), final(reader).rest(),
                spec_read_lap_entries(old(reader).rest(), self.lap_index_count as nat)),
    {
        let ghost s = reader.rest();
        let mut entries: Vec<LapIndexEntryV2> = Vec::new();
        let mut i: u32 = 0;
        while i < self.lap_index_count
            invariant
                i <= self.lap_index_count,
                s == old(reader).rest(),
                32 * i <= s.len(),
                reader.rest() == s.subrange(32 * i, s.len() as int),
                entries@ == Seq::new(i as nat, |j: int| LapIndexEntryV2::spec_decode(s.subrange(32 * j, s.len() as int))),
            decreases self.lap_index_count - i,
        {
            let ghost before = reader.rest();
            let e = match LapIndexEntryV2::read_from(reader) {
                Ok(e) => e,
                Err(err) => {
                    assert(before.len() < 32);
                    assert(s.len() < 32 * (self.lap_index_count as nat));
                    assert(error_matches(err, ErrorDesc::Eof));
                    assert(spec_read_lap_entries(s, self.lap_index_count as nat) is Err);
                    return Err(err);
                }
            };
            proof { lemma_advance(s, 32 * i, 32); }
            entries.push(e);
            i = i + 1;
            assert(entries@ =~= Seq::new(i as nat, |j: int| LapIndexEntryV2::spec_decode(s.subrange(32 * j, s.len() as int))));
        }
        Ok(entries)
    }

    /// Write the skip-index entries; their number, truncated to 32 bits,
    /// must equal the footer's count.
    pub fn write_skip_entries(&self, writer: &mut Vec<u8>, entries: &[SkipIndexEntry]) -> (r: TelemetryResult<()>)
        ensures
            (entries@.len() as u32) == self.skip_index_count ==> r is Ok && final(writer)@ == old(writer)@ + skip_entries_bytes(entries@),
            (entries@.len() as u32) != self.skip_index_count ==> r is Err && final(writer)@ == old(writer)@ && error_matches(r->Err_0,
                ErrorDesc::Argument("skip index count mismatch: expected "@ + decimal(self.skip_index_count as nat) + " got "@ + decimal(entries@.len()))),
    {
        let n = entries.len();
        if n as u32 != self.skip_index_count {
            return Err(TelemetryError::InvalidArgument(count_mismatch_message("skip index count mismatch: expected ", self.skip_index_count as u64, n as u64)));
        }
        let ghost start = writer@;
        let mut i: usize = 0;
        while i < n
            invariant
                n == entries@.len(),
                i <= n,
                start == old(writer)@,
                writer@ == start + skip_entries_bytes(entries@.subrange(0, i as int)),
            decreases n - i,
        {
            entries[i].write_to(writer);
            proof {
                let pre = entries@.subrange(0, i as int);
                let next = entries@.subrange(0, i + 1);
                assert(next.drop_last() =~= pre);
                assert(next.last() == entries@[i as int]);
                assert(skip_entries_bytes(next) == skip_entries_bytes(pre) + entries@[i as int].spec_bytes());
            }
            i = i + 1;
        }
        assert(entries@.subrange(0, n as int) =~= entries@);
        Ok(())
    }

    /// Write the lap-index entries; their number must equal the footer's
    /// count, compared after truncating the length to 32 bits.
    pub fn write_lap_entries(&self, writer: &mut Vec<u8>, entries: &[LapIndexEntryV2]) -> (r: TelemetryResult<()>)
        ensures
            (entries@.len() as u32) == self.lap_index_count ==> r is Ok && final(writer)@ == old(writer)@ + lap_entries_bytes(entries@),
            (entries@.len() as u32) != self.lap_index_count ==> r is Err && final(writer)@ == old(writer)@ && error_matches(r->Err_0,
                ErrorDesc::Argument("lap index count mismatch: expected "@ + decimal(self.lap_index_count as nat) + " got "@ + decimal(entries@.len()))),
    {
        let n = entries.len();
        if n as u32 != self.lap_index_count {
            return Err(TelemetryError::InvalidArgument(count_mismatch_message("lap index count mismatch: expected ", self.lap_index_count as u64, n as u64)));
        }
        let ghost start = writer@;
        let mut i: usize = 0;
        while i < n
            invariant
                n == entries@.len(),
                i <= n,
                start == old(writer)@,
                writer@ == start + lap_entries_bytes(entries@.subrange(0, i as int)),
            decreases n - i,
        {
            entries[i].write_to(writer);
            proof {
                let pre = entries@.subrange(0, i as int);
                let next = entries@.subrange(0, i + 1);
                assert(next.drop_last() =~= pre);
                assert(next.last() == entries@[i as int]);
                assert(lap_entries_bytes(next) == lap_entries_bytes(pre) + entries@[i as int].spec_bytes());
            }
            i = i + 1;
        }
        assert(entries@.subrange(0, n as int) =~= entries@);
        Ok(())
    }
}

/// Reading a written footer gives it back.
pub proof fn lemma_footer_v2_roundtrip(f: FooterV2, rest: Seq<u8>)
    ensures
        f.spec_bytes().len() == FooterV2::FIXED_SIZE,
        FooterV2::spec_read(f.spec_bytes() + rest) == Ok::<(FooterV2, nat), ErrorDesc>((f, 20)),
{
    lemma_le_roundtrip(rest);
    let s = f.spec_bytes() + rest;
    lemma_read_written(s, 4);
    lemma_read_written(s, 12);
    lemma_read_written(s, 16);
    assert(s.subrange(4, 12) =~= spec_u64_to_le_bytes(f.footer_offset));
    assert(s.subrange(12, 16) =~= spec_u32_to_le_bytes(f.skip_index_count));
    assert(s.subrange(16, 20) =~= spec_u32_to_le_bytes(f.lap_index_count));
}

} // verus!

verus! {

/// The bytes of each skip-index entry sit at its 32-byte slot.
proof fn lemma_skip_entries_layout(es: Seq<SkipIndexEntry>)
    ensures
        skip_entries_bytes(es).len() == 32 * es.len(),
        forall|i: int| 0 <= i < es.len() ==> #[trigger] skip_entries_bytes(es).subrange(32 * i, 32 * i + 32) == es[i].spec_bytes(),
    decreases es.len(),
{
    if es.len() > 0 {
        let pre = es.drop_last();
        lemma_skip_entries_layout(pre);
        lemma_skip_entry_roundtrip(es.last(), Seq::empty());
        let a = skip_entries_bytes(pre);
        let b = es.last().spec_bytes();
        assert forall|i: int| 0 <= i < es.len() implies #[trigger] skip_entries_bytes(es).subrange(32 * i, 32 * i + 32) == es[i].spec_bytes() by {
            if i < es.len() - 1 {
                assert((a + b).subrange(32 * i, 32 * i + 32) =~= a.subrange(32 * i, 32 * i + 32));
                assert(pre[i] == es[i]);
            } else {
                assert((a + b).subrange(32 * i, 32 * i + 32) =~= b);
            }
        }
    }
}

/// The bytes of each lap-index entry sit at its 32-byte slot.
proof fn lemma_lap_entries_layout(es: Seq<LapIndexEntryV2>)
    ensures
        lap_entries_bytes(es).len() == 32 * es.len(),
        forall|i: int| 0 <= i < es.len() ==> #[trigger] lap_entries_bytes(es).subrange(32 * i, 32 * i + 32) == es[i].spec_bytes(),
    decreases es.len(),
{
    if es.len() > 0 {
        let pre = es.drop_last();
        lemma_lap_entries_layout(pre);
        lemma_lap_entry_roundtrip(es.last(), Seq::empty());
        let a = lap_entries_bytes(pre);
        let b = es.last().spec_bytes();
        assert forall|i: int| 0 <= i < es.len() implies #[trigger] lap_entries_bytes(es).subrange(32 * i, 32 * i + 32) == es[i].spec_bytes() by {
            if i < es.len() - 1 {
                assert((a + b).subrange(32 * i, 32 * i + 32) =~= a.subrange(32 * i, 32 * i + 32));
                assert(pre[i] == es[i]);
            } else {
                assert((a + b).subrange(32 * i, 32 * i + 32) =~= b);
            }
        }
    }
}

/// Reading back written skip-index entries gives the same entries and
/// consumes exactly their bytes.
pub proof fn lemma_skip_entries_roundtrip(es: Seq<SkipIndexEntry>, rest: Seq<u8>)
    ensures
        spec_read_skip_entries(skip_entries_bytes(es) + rest, es.len()) == Ok::<(Seq<SkipIndexEntry>, nat), ErrorDesc>((es, 32 * es.len())),
{
    lemma_skip_entries_layout(es);
    let s = skip_entries_bytes(es) + rest;
    let decoded = Seq::new(es.len(), |i: int| SkipIndexEntry::spec_decode(s.subrange(32 * i, s.len() as int)));
    assert forall|i: int| 0 <= i < es.len() implies decoded[i] == es[i] by {
        let tail = s.subrange(32 * i + 32, s.len() as int);
        lemma_skip_entry_roundtrip(es[i], tail);
        assert(s.subrange(32 * i, 32 * i + 32) =~= skip_entries_bytes(es).subrange(32 * i, 32 * i + 32));
        assert(s.subrange(32 * i, s.len() as int) =~= es[i].spec_bytes() + tail);
    }
    assert(decoded =~= es);
}

/// Reading back written lap-index entries gives the same entries and
/// consumes exactly their bytes.
pub proof fn lemma_lap_entries_roundtrip(es: Seq<LapIndexEntryV2>, rest: Seq<u8>)
    ensures
        spec_read_lap_entries(lap_entries_bytes(es) + rest, es.len()) == Ok::<(Seq<LapIndexEntryV2>, nat), ErrorDesc>((es, 32 * es.len())),
{
    lemma_lap_entries_layout(es);
    let s = lap_entries_bytes(es) + rest;
    let decoded = Seq::new(es.len(), |i: int| LapIndexEntryV2::spec_decode(s.subrange(32 * i, s.len() as int)));
    assert forall|i: int| 0 <= i < es.len() implies decoded[i] == es[i] by {
        let tail = s.subrange(32 * i + 32, s.len() as int);
        lemma_lap_entry_roundtrip(es[i], tail);
        assert(s.subrange(32 * i, 32 * i + 32) =~= lap_entries_bytes(es).subrange(32 * i, 32 * i + 32));
        assert(s.subrange(32 * i, s.len() as int) =~= es[i].spec_bytes() + tail);
    }
    assert(decoded =~= es);
}

} // verus!

verus! {

// ---------------------------------------------------------------------------
// RowGroupHeader
// ---------------------------------------------------------------------------

/// Offset and length of one access group's block within a row group.
#[derive(Debug, Clone, Copy, PartialEq, Eq, Structural)]
pub struct GroupEntryV2 {
    pub group_id: u16,
    pub offset: u32,
    pub byte_len: u32,
}

impl GroupEntryV2 {
    /// Layout: group id, offset, length (10 bytes).
    pub open spec fn spec_bytes(self) -> Seq<u8> {
        spec_u16_to_le_bytes(self.group_id) + spec_u32_to_le_bytes(self.offset) + spec_u32_to_le_bytes(self.byte_len)
    }

    /// The entry stored at offset `k` of `s`.
    pub open spec fn spec_decode_at(s: Seq<u8>, k: int) -> GroupEntryV2 {
        GroupEntryV2 { group_id: u16_at(s, k), offset: u32_at(s, k + 2), byte_len: u32_at(s, k + 6) }
    }
}

/// Bytes of consecutive group entries.
pub open spec fn group_entries_bytes(es: Seq<GroupEntryV2>) -> Seq<u8>
    decreases es.len(),
{
    if es.len() == 0 { Seq::empty() } else { group_entries_bytes(es.drop_last()) + es.last().spec_bytes() }
}

/// A row-group header: row count, tick range, and one entry per group.
#[derive(Debug, Clone, PartialEq, Eq)]
pub struct RowGroupHeader {
    pub row_count: u32,
    pub frame_start_tick: u64,
    pub frame_end_tick: u64,
    pub groups: Vec<GroupEntryV2>,
}

/// The mathematical value of a row-group header.
pub struct RowGroupHeaderView {
    pub row_count: u32,
    pub frame_start_tick: u64,
    pub frame_end_tick: u64,
    pub groups: Seq<GroupEntryV2>,
}

impl View for RowGroupHeader {
    type V = RowGroupHeaderView;

    open spec fn view(&self) -> RowGroupHeaderView {
        RowGroupHeaderView {
            row_count: self.row_count,
            frame_start_tick: self.frame_start_tick,
            frame_end_tick: self.frame_end_tick,
            groups: self.groups@,
        }
    }
}

/// Layout of a row-group header: `RGHD`, row count, tick range, the group
/// count (the number of entries truncated to 16 bits), six zero bytes, then
/// the entries.
pub open spec fn row_group_header_bytes(h: RowGroupHeaderView) -> Seq<u8> {
    seq![82u8, 71u8, 72u8, 68u8] + spec_u32_to_le_bytes(h.row_count)
        + spec_u64_to_le_bytes(h.frame_start_tick) + spec_u64_to_le_bytes(h.frame_end_tick)
        + spec_u16_to_le_bytes(h.groups.len() as u16) + zeros(6) + group_entries_bytes(h.groups)
}

/// What reading a row-group header from `s` gives: magic, 28 fixed bytes,
/// then as many 10-byte entries as the group count says.
pub open spec fn spec_read_row_group_header(s: Seq<u8>) -> Result<(RowGroupHeaderView, nat), ErrorDesc> {
    if s.len() < 4 {
        Err(ErrorDesc::Eof)
    } else if !starts_with4(s, 82, 71, 72, 68) {
        Err(ErrorDesc::Format("bad row group header magic"@))
    } else if s.len() < 32 {
        Err(ErrorDesc::Eof)
    } else if s.len() < 32 + 10 * u16_at(s, 24) {
        Err(ErrorDesc::Eof)
    } else {
        Ok((RowGroupHeaderView {
            row_count: u32_at(s, 4),
            frame_start_tick: u64_at(s, 8),
            frame_end_tick: u64_at(s, 16),
            groups: Seq::new(u16_at(s, 24) as nat, |i: int| GroupEntryV2::spec_decode_at(s, 32 + 10 * i)),
        }, (32 + 10 * u16_at(s, 24)) as nat))
    }
}

impl RowGroupHeader {
    pub const FIXED_SIZE: usize = 32;
    pub const ENTRY_SIZE: usize = 10;

    /// Encoded size: the fixed part plus ten bytes per group.
    pub fn byte_len(&self) -> (n: usize)
        requires
            32 + 10 * self.groups@.len() <= usize::MAX,
        ensures
            n == 32 + 10 * self.groups@.len(),
    {
        Self::FIXED_SIZE + self.groups.len() * Self::ENTRY_SIZE
    }

    /// Append the header bytes.
    pub fn write_to(&self, writer: &mut Vec<u8>) -> (r: TelemetryResult<()>)
        ensures
            r is Ok,
            final(writer)@ == old(writer)@ + row_group_header_bytes(self@),
    {
        let ghost start = writer@;
        writer.push(82u8);
        writer.push(71u8);
        writer.push(72u8);
        writer.push(68u8);
        assert(writer@ =~= start + seq![82u8, 71u8, 72u8, 68u8]);
        put_u32(writer, self.row_count);
        put_u64(writer, self.frame_start_tick);
        put_u64(writer, self.frame_end_tick);
        put_u16(writer, self.groups.len() as u16);
        put_zeros(writer, 6);
        let ghost fixed = writer@;
        let n = self.groups.len();
        let mut i: usize = 0;
        while i < n
            invariant
                n == self.groups@.len(),
                i <= n,
                writer@ == fixed + group_entries_bytes(self.groups@.subrange(0, i as int)),
            decreases n - i,
        {
            let e = self.groups[i];
            put_u16(writer, e.group_id);
            put_u32(writer, e.offset);
            put_u32(writer, e.byte_len);
            proof {
                let pre = self.groups@.subrange(0, i as int);
                let next = self.groups@.subrange(0, i + 1);
                assert(next.drop_last() =~= pre);
                assert(next.last() == e);
                assert(group_entries_bytes(next) == group_entries_bytes(pre) + e.spec_bytes());
            }
            i = i + 1;
            assert(writer@ =~= fixed + group_entries_bytes(self.groups@.subrange(0, i as int)));
        }
        assert(self.groups@.subrange(0, n as int) =~= self.groups@);
        assert(writer@ =~= start + row_group_header_bytes(self@));
        Ok(())
    }

    /// Read a row-group header.
    pub fn read_from(reader: &mut ByteReader) -> (r: TelemetryResult<Self>)
        ensures
            match spec_read_row_group_header(old(reader).rest()) {
                Ok((v, n)) => r is Ok && r->Ok_0@ == v && n <= old(reader).rest().len() && final(reader).rest() == old(reader).rest().subrange(n as int, old(reader).rest().len() as int),
                Err(d) => r is Err && error_matches(r->Err_0, d),
            },
    {
        let ghost s = reader.rest();
        let ok = read_magic(reader, 82, 71, 72, 68)?;
        if !ok {
            return Err(TelemetryError::invalid_format("bad row group header magic"));
        }
        let b = reader.read_exact(28)?;
        proof {
            lemma_advance(s, 4, 28);
            lemma_at_in_window(s, 4, 32);
        }
        let row_count = get_u32(b, 0);
        let frame_start_tick = get_u64(b, 4);
        let frame_end_tick = get_u64(b, 12);
        let group_count = get_u16(b, 20);
        let mut groups: Vec<GroupEntryV2> = Vec::new();
        let mut i: u16 = 0;
        while i < group_count
            invariant
                i <= group_count,
                group_count == u16_at(s, 24),
                s == old(reader).rest(),
                s.len() >= 32,
                starts_with4(s, 82, 71, 72, 68),
                32 + 10 * i <= s.len(),
                reader.rest() == s.subrange(32 + 10 * i, s.len() as int),
                groups@ == Seq::new(i as nat, |j: int| GroupEntryV2::spec_decode_at(s, 32 + 10 * j)),
            decreases group_count - i,
        {
            let ghost k = 32 + 10 * i;
            let e = match reader.read_exact(10) {
                Ok(e) => e,
                Err(err) => {
                    assert(s.len() < 32 + 10 * u16_at(s, 24));
                    return Err(err);
                }
            };
            proof {
                lemma_advance(s, k, 10);
                lemma_at_in_window(s, k, k + 10);
            }
            groups.push(GroupEntryV2 { group_id: get_u16(e, 0), offset: get_u32(e, 2), byte_len: get_u32(e, 6) });
            i = i + 1;
            assert(groups@ =~= Seq::new(i as nat, |j: int| GroupEntryV2::spec_decode_at(s, 32 + 10 * j)));
        }
        Ok(RowGroupHeader { row_count, frame_start_tick, frame_end_tick, groups })
    }
}

/// The bytes of each group entry sit at its 10-byte slot.
proof fn lemma_group_entries_layout(es: Seq<GroupEntryV2>)
    ensures
        group_entries_bytes(es).len() == 10 * es.len(),
        forall|i: int| 0 <= i < es.len() ==> #[trigger] group_entries_bytes(es).subrange(10 * i, 10 * i + 10) == es[i].spec_bytes(),
    decreases es.len(),
{
    lemma_le_roundtrip(Seq::empty());
    if es.len() > 0 {
        let pre = es.drop_last();
        lemma_group_entries_layout(pre);
        let a = group_entries_bytes(pre);
        let b = es.last().spec_bytes();
        assert(b.len() == 10);
        assert forall|i: int| 0 <= i < es.len() implies #[trigger] group_entries_bytes(es).subrange(10 * i, 10 * i + 10) == es[i].spec_bytes() by {
            if i < es.len() - 1 {
                assert((a + b).subrange(10 * i, 10 * i + 10) =~= a.subrange(10 * i, 10 * i + 10));
                assert(pre[i] == es[i]);
            } else {
                assert((a + b).subrange(10 * i, 10 * i + 10) =~= b);
            }
        }
    }
}

/// Reading a written row-group header gives it back, provided it has at
/// most 65535 groups (the count is stored in 16 bits).
pub proof fn lemma_row_group_header_roundtrip(h: RowGroupHeaderView, rest: Seq<u8>)
    requires
        h.groups.len() <= u16::MAX,
    ensures
        row_group_header_bytes(h).len() == 32 + 10 * h.groups.len(),
        spec_read_row_group_header(row_group_header_bytes(h) + rest)
            == Ok::<(RowGroupHeaderView, nat), ErrorDesc>((h, 32 + 10 * h.groups.len())),
{
    lemma_le_roundtrip(rest);
    lemma_group_entries_layout(h.groups);
    let s = row_group_header_bytes(h) + rest;
    lemma_read_written(s, 4);
    lemma_read_written(s, 8);
    lemma_read_written(s, 16);
    lemma_read_written(s, 24);
    assert(s.subrange(4, 8) =~= spec_u32_to_le_bytes(h.row_count));
    assert(s.subrange(8, 16) =~= spec_u64_to_le_bytes(h.frame_start_tick));
    assert(s.subrange(16, 24) =~= spec_u64_to_le_bytes(h.frame_end_tick));
    assert(s.subrange(24, 26) =~= spec_u16_to_le_bytes(h.groups.len() as u16));
    assert(u16_at(s, 24) == h.groups.len());
    let decoded = Seq::new(u16_at(s, 24) as nat, |i: int| GroupEntryV2::spec_decode_at(s, 32 + 10 * i));
    assert forall|i: int| 0 <= i < h.groups.len() implies decoded[i] == h.groups[i] by {
        let k = 32 + 10 * i;
        let e = h.groups[i];
        lemma_read_written(s, k);
        lemma_read_written(s, k + 2);
        lemma_read_written(s, k + 6);
        assert(s.subrange(k, k + 10) =~= group_entries_bytes(h.groups).subrange(10 * i, 10 * i + 10));
        assert(spec_u16_to_le_bytes(e.group_id).len() == 2);
        assert(spec_u32_to_le_bytes(e.offset).len() == 4);
        assert(spec_u32_to_le_bytes(e.byte_len).len() == 4);
        let eb = e.spec_bytes();
        assert(eb.subrange(0, 2) =~= spec_u16_to_le_bytes(e.group_id));
        assert(eb.subrange(2, 6) =~= spec_u32_to_le_bytes(e.offset));
        assert(eb.subrange(6, 10) =~= spec_u32_to_le_bytes(e.byte_len));
        assert(s.subrange(k, k + 10).subrange(2, 6) =~= s.subrange(k + 2, k + 6));
        assert(s.subrange(k, k + 10).subrange(6, 10) =~= s.subrange(k + 6, k + 10));
        assert(s.subrange(k, k + 10).subrange(0, 2) =~= s.subrange(k, k + 2));
        assert(s.subrange(k, k + 2) =~= spec_u16_to_le_bytes(e.group_id));
        assert(s.subrange(k + 2, k + 6) =~= spec_u32_to_le_bytes(e.offset));
        assert(s.subrange(k + 6, k + 10) =~= spec_u32_to_le_bytes(e.byte_len));
    }
    assert(decoded =~= h.groups);
}

} // verus!

use vstd::utf8::{decode_utf8, encode_utf8, valid_utf8, encode_utf8_decode_utf8, encode_utf8_valid_utf8};
use vstd::string::StringSliceAdditionalSpecFns;
use vstd::slice::{slice_subrange, slice_to_vec};
use crate::codec::{encode_many, parse_many, lemma_parse_many_error_persists, lemma_parse_many_roundtrip, put_bytes};
use crate::text::{string_from_utf8, utf8_error_text};

verus! {

// ---------------------------------------------------------------------------
// SchemaBlockV2
// ---------------------------------------------------------------------------

/// A column definition within a schema group.
#[derive(Debug, Clone, PartialEq, Eq)]
pub struct SchemaColumnDefV2 {
    pub column_id: u16,
    pub value_type: u8,
    pub name: String,
}

/// A group definition: its id and its columns.
#[derive(Debug, Clone, PartialEq, Eq)]
pub struct SchemaGroupDefV2 {
    pub group_id: u16,
    pub columns: Vec<SchemaColumnDefV2>,
}

/// The schema block: the full column catalog organised by access group.
#[derive(Debug, Clone, PartialEq, Eq)]
pub struct SchemaBlockV2 {
    pub groups: Vec<SchemaGroupDefV2>,
}

/// Mathematical value of a column definition.
pub struct SchemaColumnView {
    pub column_id: u16,
    pub value_type: u8,
    pub name: Seq<char>,
}

/// Mathematical value of a group definition.
pub struct SchemaGroupView {
    pub group_id: u16,
    pub columns: Seq<SchemaColumnView>,
}

impl View for SchemaColumnDefV2 {
    type V = SchemaColumnView;

    open spec fn view(&self) -> SchemaColumnView {
        SchemaColumnView { column_id: self.column_id, value_type: self.value_type, name: self.name@ }
    }
}

impl View for SchemaGroupDefV2 {
    type V = SchemaGroupView;

    open spec fn view(&self) -> SchemaGroupView {
        SchemaGroupView { group_id: self.group_id, columns: self.columns@.map_values(|c: SchemaColumnDefV2| c@) }
    }
}

impl View for SchemaBlockV2 {
    type V = Seq<SchemaGroupView>;

    open spec fn view(&self) -> Seq<SchemaGroupView> {
        self.groups@.map_values(|g: SchemaGroupDefV2| g@)
    }
}

/// How many bytes of a name are stored: its UTF-8 length, at most 255.
pub open spec fn stored_name_len(name: Seq<char>) -> nat {
    if encode_utf8(name).len() < 255 { encode_utf8(name).len() } else { 255 }
}

/// Layout of a column definition: id, value type, stored name length, then
/// that many bytes of the name's UTF-8 encoding.
pub open spec fn schema_column_bytes(c: SchemaColumnView) -> Seq<u8> {
    spec_u16_to_le_bytes(c.column_id) + seq![c.value_type, stored_name_len(c.name) as u8]
        + encode_utf8(c.name).subrange(0, stored_name_len(c.name) as int)
}

/// Layout of a group: id, column count (truncated to 16 bits), columns.
pub open spec fn schema_group_bytes(g: SchemaGroupView) -> Seq<u8> {
    spec_u16_to_le_bytes(g.group_id) + spec_u16_to_le_bytes(g.columns.len() as u16)
        + encode_many(g.columns, |c: SchemaColumnView| schema_column_bytes(c))
}

/// Layout of a schema block: group count (truncated to 16 bits), groups.
pub open spec fn schema_block_bytes(b: Seq<SchemaGroupView>) -> Seq<u8> {
    spec_u16_to_le_bytes(b.len() as u16) + encode_many(b, |g: SchemaGroupView| schema_group_bytes(g))
}

/// Reading one column definition: id, two meta bytes, the name bytes, and
/// the name must be valid UTF-8.
pub open spec fn spec_read_schema_column(s: Seq<u8>) -> Result<(SchemaColumnView, nat), ErrorDesc> {
    if s.len() < 4 {
        Err(ErrorDesc::Eof)
    } else if s.len() < 4 + s[3] {
        Err(ErrorDesc::Eof)
    } else if !valid_utf8(s.subrange(4, 4 + s[3])) {
        Err(ErrorDesc::Format("invalid column name: "@ + utf8_error_text(s.subrange(4, 4 + s[3]))))
    } else {
        Ok((SchemaColumnView { column_id: u16_at(s, 0), value_type: s[2], name: decode_utf8(s.subrange(4, 4 + s[3])) }, (4 + s[3]) as nat))
    }
}

/// Reading one group definition: id, column count, then the columns.
pub open spec fn spec_read_schema_group(s: Seq<u8>) -> Result<(SchemaGroupView, nat), ErrorDesc> {
    if s.len() < 4 {
        Err(ErrorDesc::Eof)
    } else {
        match parse_many(s.subrange(4, s.len() as int), u16_at(s, 2) as nat, |t: Seq<u8>| spec_read_schema_column(t)) {
            Err(d) => Err(d),
            Ok((cols, n)) => Ok((SchemaGroupView { group_id: u16_at(s, 0), columns: cols }, 4 + n)),
        }
    }
}

/// Reading a schema block: group count, then the groups.
pub open spec fn spec_read_schema_block(s: Seq<u8>) -> Result<(Seq<SchemaGroupView>, nat), ErrorDesc> {
    if s.len() < 2 {
        Err(ErrorDesc::Eof)
    } else {
        match parse_many(s.subrange(2, s.len() as int), u16_at(s, 0) as nat, |t: Seq<u8>| spec_read_schema_group(t)) {
            Err(d) => Err(d),
            Ok((gs, n)) => Ok((gs, 2 + n)),
        }
    }
}

fn write_schema_column(writer: &mut Vec<u8>, col: &SchemaColumnDefV2)
    ensures
        final(writer)@ == old(writer)@ + schema_column_bytes(col@),
{
    let ghost start = writer@;
    put_u16(writer, col.column_id);
    writer.push(col.value_type);
    let name_bytes = col.name.as_str().as_bytes();
    let name_len: usize = if name_bytes.len() < 255 { name_bytes.len() } else { 255 };
    writer.push(name_len as u8);
    put_bytes(writer, slice_subrange(name_bytes, 0, name_len));
    assert(writer@ =~= start + schema_column_bytes(col@));
}

fn write_schema_group(writer: &mut Vec<u8>, group: &SchemaGroupDefV2)
    ensures
        final(writer)@ == old(writer)@ + schema_group_bytes(group@),
{
    let ghost start = writer@;
    put_u16(writer, group.group_id);
    put_u16(writer, group.columns.len() as u16);
    let ghost fixed = writer@;
    let ghost cols = group@.columns;
    let n = group.columns.len();
    let mut i: usize = 0;
    while i < n
        invariant
            n == group.columns@.len(),
            cols == group@.columns,
            i <= n,
            writer@ == fixed + encode_many(cols.subrange(0, i as int), |c: SchemaColumnView| schema_column_bytes(c)),
        decreases n - i,
    {
        write_schema_column(writer, &group.columns[i]);
        proof {
            let pre = cols.subrange(0, i as int);
            let next = cols.subrange(0, i + 1);
            assert(next.drop_last() =~= pre);
            assert(next.last() == group.columns@[i as int]@);
        }
        i = i + 1;
        assert(writer@ =~= fixed + encode_many(cols.subrange(0, i as int), |c: SchemaColumnView| schema_column_bytes(c)));
    }
    assert(cols.subrange(0, n as int) =~= cols);
    assert(writer@ =~= start + schema_group_bytes(group@));
}

fn read_schema_column(reader: &mut ByteReader) -> (r: TelemetryResult<SchemaColumnDefV2>)
    ensures
        match spec_read_schema_column(old(reader).rest()) {
            Ok((v, n)) => r is Ok && r->Ok_0@ == v && n <= old(reader).rest().len() && final(reader).rest() == old(reader).rest().subrange(n as int, old(reader).rest().len() as int),
            Err(d) => r is Err && error_matches(r->Err_0, d),
        },
{
    let ghost s = reader.rest();
    let column_id = read_u16(reader)?;
    let meta = match reader.read_exact(2) {
        Ok(m) => m,
        Err(e) => {
            assert(s.len() < 4);
            return Err(e);
        }
    };
    proof { lemma_advance(s, 2, 2); }
    let value_type = meta[0];
    let name_len = meta[1] as usize;
    let name_buf = match reader.read_exact(name_len) {
        Ok(b) => b,
        Err(e) => {
            assert(s.len() < 4 + s[3]);
            return Err(e);
        }
    };
    proof { lemma_advance(s, 4, name_len as int); }
    match string_from_utf8(slice_to_vec(name_buf)) {
        Ok(name) => Ok(SchemaColumnDefV2 { column_id, value_type, name }),
        Err(msg) => {
            let mut m = String::from_str("invalid column name: ");
            m.append(msg.as_str());
            Err(TelemetryError::InvalidFormat(m))
        }
    }
}

fn read_schema_group(reader: &mut ByteReader) -> (r: TelemetryResult<SchemaGroupDefV2>)
    ensures
        match spec_read_schema_group(old(reader).rest()) {
            Ok((v, n)) => r is Ok && r->Ok_0@ == v && n <= old(reader).rest().len() && final(reader).rest() == old(reader).rest().subrange(n as int, old(reader).rest().len() as int),
            Err(d) => r is Err && error_matches(r->Err_0, d),
        },
{
    let ghost s = reader.rest();
    let group_id = read_u16(reader)?;
    let col_count = match read_u16(reader) {
        Ok(c) => c,
        Err(e) => {
            assert(s.len() < 4);
            return Err(e);
        }
    };
    proof {
        lemma_advance(s, 2, 2);
        lemma_at_in_window(s, 2, s.len() as int);
    }
    let ghost t = s.subrange(4, s.len() as int);
    let ghost item = |u: Seq<u8>| spec_read_schema_column(u);
    let mut columns: Vec<SchemaColumnDefV2> = Vec::new();
    let mut i: u16 = 0;
    let ghost mut consumed: nat = 0;
    assert(columns@.map_values(|c: SchemaColumnDefV2| c@) =~= Seq::<SchemaColumnView>::empty());
    while i < col_count
        invariant
            i <= col_count,
            s == old(reader).rest(),
            s.len() >= 4,
            t == s.subrange(4, s.len() as int),
            col_count == u16_at(s, 2),
            group_id == u16_at(s, 0),
            item == (|u: Seq<u8>| spec_read_schema_column(u)),
            parse_many(t, i as nat, item) == Ok::<(Seq<SchemaColumnView>, nat), ErrorDesc>((columns@.map_values(|c: SchemaColumnDefV2| c@), consumed)),
            consumed <= t.len(),
            reader.rest() == t.subrange(consumed as int, t.len() as int),
        decreases col_count - i,
    {
        let ghost before = reader.rest();
        let c = match read_schema_column(reader) {
            Ok(c) => c,
            Err(e) => {
                proof {
                    lemma_parse_many_error_persists(t, (i + 1) as nat, col_count as nat, item);
                }
                return Err(e);
            }
        };
        proof {
            let ghost m = (spec_read_schema_column(before)->Ok_0).1;
            assert(t.subrange(consumed as int, t.len() as int).subrange(m as int, t.len() - consumed) =~= t.subrange((consumed + m) as int, t.len() as int));
            consumed = consumed + m;
        }
        let ghost prev = columns@.map_values(|c: SchemaColumnDefV2| c@);
        columns.push(c);
        i = i + 1;
        assert(columns@.map_values(|c: SchemaColumnDefV2| c@) =~= prev.push(c@));
    }
    proof {
        assert(s.subrange(4, s.len() as int).subrange(consumed as int, s.len() - 4) =~= s.subrange((4 + consumed) as int, s.len() as int));
    }
    Ok(SchemaGroupDefV2 { group_id, columns })
}

} // verus!

verus! {

impl SchemaBlockV2 {
    /// Append the schema block bytes.
    pub fn write_to(&self, writer: &mut Vec<u8>) -> (r: TelemetryResult<()>)
        ensures
            r is Ok,
            final(writer)@ == old(writer)@ + schema_block_bytes(self@),
    {
        let ghost start = writer@;
        put_u16(writer, self.groups.len() as u16);
        let ghost fixed = writer@;
        let ghost gs = self@;
        let n = self.groups.len();
        let mut i: usize = 0;
        while i < n
            invariant
                n == self.groups@.len(),
                gs == self@,
                i <= n,
                writer@ == fixed + encode_many(gs.subrange(0, i as int), |g: SchemaGroupView| schema_group_bytes(g)),
            decreases n - i,
        {
            write_schema_group(writer, &self.groups[i]);
            proof {
                let pre = gs.subrange(0, i as int);
                let next = gs.subrange(0, i + 1);
                assert(next.drop_last() =~= pre);
                assert(next.last() == self.groups@[i as int]@);
            }
            i = i + 1;
            assert(writer@ =~= fixed + encode_many(gs.subrange(0, i as int), |g: SchemaGroupView| schema_group_bytes(g)));
        }
        assert(gs.subrange(0, n as int) =~= gs);
        assert(writer@ =~= start + schema_block_bytes(self@));
        Ok(())
    }

    /// Read a schema block.
    pub fn read_from(reader: &mut ByteReader) -> (r: TelemetryResult<Self>)
        ensures
            match spec_read_schema_block(old(reader).rest()) {
                Ok((v, n)) => r is Ok && r->Ok_0@ == v && n <= old(reader).rest().len() && final(reader).rest() == old(reader).rest().subrange(n as int, old(reader).rest().len() as int),
                Err(d) => r is Err && error_matches(r->Err_0, d),
            },
    {
        let ghost s = reader.rest();
        let group_count = read_u16(reader)?;
        let ghost t = s.subrange(2, s.len() as int);
        let ghost item = |u: Seq<u8>| spec_read_schema_group(u);
        let mut groups: Vec<SchemaGroupDefV2> = Vec::new();
        let mut i: u16 = 0;
        let ghost mut consumed: nat = 0;
        assert(groups@.map_values(|g: SchemaGroupDefV2| g@) =~= Seq::<SchemaGroupView>::empty());
        while i < group_count
            invariant
                i <= group_count,
                s == old(reader).rest(),
                s.len() >= 2,
                t == s.subrange(2, s.len() as int),
                group_count == u16_at(s, 0),
                item == (|u: Seq<u8>| spec_read_schema_group(u)),
                parse_many(t, i as nat, item) == Ok::<(Seq<SchemaGroupView>, nat), ErrorDesc>((groups@.map_values(|g: SchemaGroupDefV2| g@), consumed)),
                consumed <= t.len(),
                reader.rest() == t.subrange(consumed as int, t.len() as int),
            decreases group_count - i,
        {
            let ghost before = reader.rest();
            let g = match read_schema_group(reader) {
                Ok(g) => g,
                Err(e) => {
                    proof {
                        lemma_parse_many_error_persists(t, (i + 1) as nat, group_count as nat, item);
                    }
                    return Err(e);
                }
            };
            proof {
                let ghost m = (spec_read_schema_group(before)->Ok_0).1;
                assert(t.subrange(consumed as int, t.len() as int).subrange(m as int, t.len() - consumed) =~= t.subrange((consumed + m) as int, t.len() as int));
                consumed = consumed + m;
            }
            let ghost prev = groups@.map_values(|g: SchemaGroupDefV2| g@);
            groups.push(g);
            i = i + 1;
            assert(groups@.map_values(|g: SchemaGroupDefV2| g@) =~= prev.push(g@));
        }
        proof {
            assert(s.subrange(2, s.len() as int).subrange(consumed as int, s.len() - 2) =~= s.subrange((2 + consumed) as int, s.len() as int));
        }
        Ok(SchemaBlockV2 { groups })
    }
}

/// Names no longer than 255 bytes are stored whole.
pub open spec fn schema_column_fits(c: SchemaColumnView) -> bool {
    encode_utf8(c.name).len() <= 255
}

/// A group whose column count fits in 16 bits and whose names fit.
pub open spec fn schema_group_fits(g: SchemaGroupView) -> bool {
    g.columns.len() <= u16::MAX && forall|i: int| 0 <= i < g.columns.len() ==> schema_column_fits(#[trigger] g.columns[i])
}

proof fn lemma_schema_column_roundtrip(c: SchemaColumnView, rest: Seq<u8>)
    requires
        schema_column_fits(c),
    ensures
        spec_read_schema_column(schema_column_bytes(c) + rest) == Ok::<(SchemaColumnView, nat), ErrorDesc>((c, schema_column_bytes(c).len())),
{
    lemma_le_roundtrip(rest);
    let nb = encode_utf8(c.name);
    encode_utf8_valid_utf8(c.name);
    encode_utf8_decode_utf8(c.name);
    let s = schema_column_bytes(c) + rest;
    assert(nb.subrange(0, nb.len() as int) =~= nb);
    lemma_read_written(s, 0);
    assert(s.subrange(0, 2) =~= spec_u16_to_le_bytes(c.column_id));
    assert(s[3] == nb.len());
    assert(s.subrange(4, 4 + s[3]) =~= nb);
}

proof fn lemma_schema_group_roundtrip(g: SchemaGroupView, rest: Seq<u8>)
    requires
        schema_group_fits(g),
    ensures
        spec_read_schema_group(schema_group_bytes(g) + rest) == Ok::<(SchemaGroupView, nat), ErrorDesc>((g, schema_group_bytes(g).len())),
{
    lemma_le_roundtrip(rest);
    let item = |t: Seq<u8>| spec_read_schema_column(t);
    let enc = |c: SchemaColumnView| schema_column_bytes(c);
    assert forall|i: int, r: Seq<u8>| 0 <= i < g.columns.len() implies #[trigger] item(enc(g.columns[i]) + r)
        == Ok::<(SchemaColumnView, nat), ErrorDesc>((g.columns[i], enc(g.columns[i]).len())) by {
        lemma_schema_column_roundtrip(g.columns[i], r);
    }
    let body = encode_many(g.columns, enc);
    lemma_parse_many_roundtrip(g.columns, rest, item, enc);
    let s = schema_group_bytes(g) + rest;
    lemma_read_written(s, 0);
    lemma_read_written(s, 2);
    assert(s.subrange(0, 2) =~= spec_u16_to_le_bytes(g.group_id));
    assert(s.subrange(2, 4) =~= spec_u16_to_le_bytes(g.columns.len() as u16));
    assert(s.subrange(4, s.len() as int) =~= body + rest);
}

/// Reading a written schema block gives back the same groups and columns,
/// provided every count fits in 16 bits and every name in 255 bytes.
pub proof fn lemma_schema_block_roundtrip(b: Seq<SchemaGroupView>, rest: Seq<u8>)
    requires
        b.len() <= u16::MAX,
        forall|i: int| 0 <= i < b.len() ==> schema_group_fits(#[trigger] b[i]),
    ensures
        spec_read_schema_block(schema_block_bytes(b) + rest) == Ok::<(Seq<SchemaGroupView>, nat), ErrorDesc>((b, schema_block_bytes(b).len())),
{
    lemma_le_roundtrip(rest);
    let item = |t: Seq<u8>| spec_read_schema_group(t);
    let enc = |g: SchemaGroupView| schema_group_bytes(g);
    assert forall|i: int, r: Seq<u8>| 0 <= i < b.len() implies #[trigger] item(enc(b[i]) + r)
        == Ok::<(SchemaGroupView, nat), ErrorDesc>((b[i], enc(b[i]).len())) by {
        lemma_schema_group_roundtrip(b[i], r);
    }
    let body = encode_many(b, enc);
    lemma_parse_many_roundtrip(b, rest, item, enc);
    let s = schema_block_bytes(b) + rest;
    lemma_read_written(s, 0);
    assert(s.subrange(0, 2) =~= spec_u16_to_le_bytes(b.len() as u16));
    assert(s.subrange(2, s.len() as int) =~= body + rest);
}

} // verus!
