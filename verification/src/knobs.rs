//! Identifiers and labels of the rule-tuning sliders ("knobs").

use vstd::prelude::*;

verus! {

/// Identifier of every knob, in slider order.
#[derive(Copy, Clone, Debug, PartialEq, Eq, Structural, Hash)]
pub enum KnobId {
    HpStart,
    MpStart,
    FoodStart,
    EnemySpeedMul,
    EnemyHpMul,
    EnemyAtkMul,
    VisionRange,
    ScalingFloor,
    AutopilotMode,
    AutopilotSpeed,
    PacingRecovery,
    RelicDensity,
    GoldDensity,
    MonsterDensity,
    TrapDensity,
    MaxFloors,
}

/// Number of knobs.
pub const KNOB_COUNT: usize = 16;

/// 0-based slider position of a knob.
pub open spec fn knob_index(k: KnobId) -> nat {
    match k {
        KnobId::HpStart => 0,
        KnobId::MpStart => 1,
        KnobId::FoodStart => 2,
        KnobId::EnemySpeedMul => 3,
        KnobId::EnemyHpMul => 4,
        KnobId::EnemyAtkMul => 5,
        KnobId::VisionRange => 6,
        KnobId::ScalingFloor => 7,
        KnobId::AutopilotMode => 8,
        KnobId::AutopilotSpeed => 9,
        KnobId::PacingRecovery => 10,
        KnobId::RelicDensity => 11,
        KnobId::GoldDensity => 12,
        KnobId::MonsterDensity => 13,
        KnobId::TrapDensity => 14,
        KnobId::MaxFloors => 15,
    }
}

/// Korean display label of a knob.
pub open spec fn knob_label(k: KnobId) -> Seq<char> {
    match k {
        KnobId::HpStart => "시작 HP"@,
        KnobId::MpStart => "시작 MP"@,
        KnobId::FoodStart => "시작 식량"@,
        KnobId::EnemySpeedMul => "적 속도"@,
        KnobId::EnemyHpMul => "적 HP"@,
        KnobId::EnemyAtkMul => "적 공격"@,
        KnobId::VisionRange => "시야"@,
        KnobId::ScalingFloor => "층 스케일"@,
        KnobId::AutopilotMode => "자동 모드"@,
        KnobId::AutopilotSpeed => "자동 속도"@,
        KnobId::PacingRecovery => "회복 빈도"@,
        KnobId::RelicDensity => "유물"@,
        KnobId::GoldDensity => "골드"@,
        KnobId::MonsterDensity => "적 밀도"@,
        KnobId::TrapDensity => "함정"@,
        KnobId::MaxFloors => "최대 층"@,
    }
}

impl KnobId {
    /// Number of knobs.
    pub const COUNT: usize = 16;

    /// The knob at slider position `i`, or `None` past the last one.
    pub fn from_index(i: usize) -> (r: Option<Self>)
        ensures
            i < KNOB_COUNT ==> (r matches Some(k) && knob_index(k) == i),
            i >= KNOB_COUNT ==> r is None,
    {
        match i {
        0 => Some(KnobId::HpStart),
        1 => Some(KnobId::MpStart),
        2 => Some(KnobId::FoodStart),
        3 => Some(KnobId::EnemySpeedMul),
        4 => Some(KnobId::EnemyHpMul),
        5 => Some(KnobId::EnemyAtkMul),
        6 => Some(KnobId::VisionRange),
        7 => Some(KnobId::ScalingFloor),
        8 => Some(KnobId::AutopilotMode),
        9 => Some(KnobId::AutopilotSpeed),
        10 => Some(KnobId::PacingRecovery),
        11 => Some(KnobId::RelicDensity),
        12 => Some(KnobId::GoldDensity),
        13 => Some(KnobId::MonsterDensity),
        14 => Some(KnobId::TrapDensity),
        15 => Some(KnobId::MaxFloors),
            _ => None,
        }
    }
}

/// Display label (Korean) of a knob.
pub fn label_of(id: KnobId) -> (r: &'static str)
    ensures
        r@ == knob_label(id),
{
    match id {
        KnobId::HpStart => "시작 HP",
        KnobId::MpStart => "시작 MP",
        KnobId::FoodStart => "시작 식량",
        KnobId::EnemySpeedMul => "적 속도",
        KnobId::EnemyHpMul => "적 HP",
        KnobId::EnemyAtkMul => "적 공격",
        KnobId::VisionRange => "시야",
        KnobId::ScalingFloor => "층 스케일",
        KnobId::AutopilotMode => "자동 모드",
        KnobId::AutopilotSpeed => "자동 속도",
        KnobId::PacingRecovery => "회복 빈도",
        KnobId::RelicDensity => "유물",
        KnobId::GoldDensity => "골드",
        KnobId::MonsterDensity => "적 밀도",
        KnobId::TrapDensity => "함정",
        KnobId::MaxFloors => "최대 층",
    }
}

/// Slider positions and knobs are in one-to-one correspondence.
pub proof fn lemma_knob_index_injective(a: KnobId, b: KnobId)
    ensures
        knob_index(a) < KNOB_COUNT,
        knob_index(a) == knob_index(b) ==> a == b,
{
}

} // verus!
