//! Integer enumerations of the game: modes, mods, ranked statuses, grades and
//! user permissions, each with its number on disk.

use vstd::prelude::*;

verus! {

/// The game's game modes.
#[derive(Debug, Clone, Copy, PartialEq, Eq, Structural)]
pub enum Mode {
    /// osu!standard (0)
    Osu,
    /// osu!taiko (1)
    Taiko,
    /// osu!catch (2)
    Catch,
    /// osu!mania (3)
    Mania,
}

impl Mode {
    /// Different game modes have different numbers, so the number of a
    /// game mode reads back as that game mode.
    pub proof fn mode_number_identifies(a: Mode, b: Mode)
        ensures
            a.spec_value() == b.spec_value() ==> a == b,
    {
    }

    /// The number of the mode.
    pub open spec fn spec_value(self) -> u8 {
        match self {
            Mode::Osu => 0,
            Mode::Taiko => 1,
            Mode::Catch => 2,
            Mode::Mania => 3,
        }
    }

    /// The mode with number `v`, if there is one.
    pub open spec fn spec_from_u8(v: u8) -> Option<Mode> {
        if v == 0 {
            Some(Mode::Osu)
        } else if v == 1 {
            Some(Mode::Taiko)
        } else if v == 2 {
            Some(Mode::Catch)
        } else if v == 3 {
            Some(Mode::Mania)
        } else {
            None
        }
    }

    /// The number of the mode.
    pub fn value(self) -> (r: u8)
        ensures
            r == self.spec_value(),
    {
        match self {
            Mode::Osu => 0,
            Mode::Taiko => 1,
            Mode::Catch => 2,
            Mode::Mania => 3,
        }
    }

    /// The mode with number `v`: `None` unless `v` is 0 to 3.
    pub fn from_u8(v: u8) -> (r: Option<Mode>)
        ensures
            r == Mode::spec_from_u8(v),
            r matches Some(m) ==> m.spec_value() == v,
    {
        if v == 0 {
            Some(Mode::Osu)
        } else if v == 1 {
            Some(Mode::Taiko)
        } else if v == 2 {
            Some(Mode::Catch)
        } else if v == 3 {
            Some(Mode::Mania)
        } else {
            None
        }
    }
}

/// The ranked statuses of a beatmap, numbered 0 to 7 in declaration order.
#[derive(Debug, Clone, Copy, PartialEq, Eq, Structural)]
pub enum RankedStatus {
    /// 0
    Unknown,
    /// 1
    Unsubmitted,
    /// 2
    Unranked,
    /// 3
    Unused,
    /// 4
    Ranked,
    /// 5
    Approved,
    /// 6
    Qualified,
    /// 7
    Loved,
}

impl RankedStatus {
    /// Different ranked statuss have different numbers, so the number of a
    /// ranked status reads back as that ranked status.
    pub proof fn ranked_status_number_identifies(a: RankedStatus, b: RankedStatus)
        ensures
            a.spec_value() == b.spec_value() ==> a == b,
    {
    }

    /// The number of the status.
    pub open spec fn spec_value(self) -> u8 {
        match self {
            RankedStatus::Unknown => 0,
            RankedStatus::Unsubmitted => 1,
            RankedStatus::Unranked => 2,
            RankedStatus::Unused => 3,
            RankedStatus::Ranked => 4,
            RankedStatus::Approved => 5,
            RankedStatus::Qualified => 6,
            RankedStatus::Loved => 7,
        }
    }

    /// The number of the status.
    pub fn value(self) -> (r: u8)
        ensures
            r == self.spec_value(),
    {
        match self {
            RankedStatus::Unknown => 0,
            RankedStatus::Unsubmitted => 1,
            RankedStatus::Unranked => 2,
            RankedStatus::Unused => 3,
            RankedStatus::Ranked => 4,
            RankedStatus::Approved => 5,
            RankedStatus::Qualified => 6,
            RankedStatus::Loved => 7,
        }
    }

    /// The status with number `v`: `None` unless `v` is 0 to 7.
    pub fn from_u8(v: u8) -> (r: Option<RankedStatus>)
        ensures
            r is Some <==> v <= 7,
            r matches Some(x) ==> x.spec_value() == v,
    {
        if v == 0 {
            Some(RankedStatus::Unknown)
        } else if v == 1 {
            Some(RankedStatus::Unsubmitted)
        } else if v == 2 {
            Some(RankedStatus::Unranked)
        } else if v == 3 {
            Some(RankedStatus::Unused)
        } else if v == 4 {
            Some(RankedStatus::Ranked)
        } else if v == 5 {
            Some(RankedStatus::Approved)
        } else if v == 6 {
            Some(RankedStatus::Qualified)
        } else if v == 7 {
            Some(RankedStatus::Loved)
        } else {
            None
        }
    }
}

/// Rank grades, numbered 0 to 9 in declaration order.
#[derive(Debug, Clone, Copy, PartialEq, Eq, Structural)]
pub enum Grade {
    /// 0
    SS,
    /// 1
    SH,
    /// 2
    SSH,
    /// 3
    S,
    /// 4
    A,
    /// 5
    B,
    /// 6
    C,
    /// 7
    D,
    /// 8
    F,
    /// 9: no grade achieved
    NoGrade,
}

impl Grade {
    /// Different grades have different numbers, so the number of a
    /// grade reads back as that grade.
    pub proof fn grade_number_identifies(a: Grade, b: Grade)
        ensures
            a.spec_value() == b.spec_value() ==> a == b,
    {
    }

    /// The number of the grade.
    pub open spec fn spec_value(self) -> u8 {
        match self {
            Grade::SS => 0,
            Grade::SH => 1,
            Grade::SSH => 2,
            Grade::S => 3,
            Grade::A => 4,
            Grade::B => 5,
            Grade::C => 6,
            Grade::D => 7,
            Grade::F => 8,
            Grade::NoGrade => 9,
        }
    }

    /// The number of the grade.
    pub fn value(self) -> (r: u8)
        ensures
            r == self.spec_value(),
    {
        match self {
            Grade::SS => 0,
            Grade::SH => 1,
            Grade::SSH => 2,
            Grade::S => 3,
            Grade::A => 4,
            Grade::B => 5,
            Grade::C => 6,
            Grade::D => 7,
            Grade::F => 8,
            Grade::NoGrade => 9,
        }
    }

    /// The grade with number `v`: `None` unless `v` is 0 to 9.
    pub fn from_u8(v: u8) -> (r: Option<Grade>)
        ensures
            r is Some <==> v <= 9,
            r matches Some(x) ==> x.spec_value() == v,
    {
        if v == 0 {
            Some(Grade::SS)
        } else if v == 1 {
            Some(Grade::SH)
        } else if v == 2 {
            Some(Grade::SSH)
        } else if v == 3 {
            Some(Grade::S)
        } else if v == 4 {
            Some(Grade::A)
        } else if v == 5 {
            Some(Grade::B)
        } else if v == 6 {
            Some(Grade::C)
        } else if v == 7 {
            Some(Grade::D)
        } else if v == 8 {
            Some(Grade::F)
        } else if v == 9 {
            Some(Grade::NoGrade)
        } else {
            None
        }
    }
}

/// The user's permissions, each a bit of a byte.
#[derive(Debug, Clone, Copy, PartialEq, Eq, Structural)]
pub enum UserPermission {
    /// 0: no permission
    NoPermission,
    /// 1
    Normal,
    /// 2
    Moderator,
    /// 4
    Supporter,
    /// 8
    Friend,
    /// 16
    Peppy,
    /// 32
    WorldCupStaff,
}

impl UserPermission {
    /// The bit of the permission.
    pub open spec fn spec_value(self) -> u8 {
        match self {
            UserPermission::NoPermission => 0,
            UserPermission::Normal => 1,
            UserPermission::Moderator => 2,
            UserPermission::Supporter => 4,
            UserPermission::Friend => 8,
            UserPermission::Peppy => 16,
            UserPermission::WorldCupStaff => 32,
        }
    }

    /// The bit of the permission.
    pub fn value(self) -> (r: u8)
        ensures
            r == self.spec_value(),
    {
        match self {
            UserPermission::NoPermission => 0,
            UserPermission::Normal => 1,
            UserPermission::Moderator => 2,
            UserPermission::Supporter => 4,
            UserPermission::Friend => 8,
            UserPermission::Peppy => 16,
            UserPermission::WorldCupStaff => 32,
        }
    }

    /// The byte holding both permissions: the bitwise or of their bits.
    pub fn bitor(self, other: UserPermission) -> (r: u8)
        ensures
            r == self.spec_value() | other.spec_value(),
    {
        self.value() | other.value()
    }
}

/// The union of all mod bits: bits 0 to 28.
pub open spec fn all_mod_bits() -> u32 {
    0x1FFF_FFFF
}

/// A number below `2^29` sets no bit outside the mod bits.
proof fn lemma_mod_bits(b: u32)
    requires
        b < 0x2000_0000,
    ensures
        b & !0x1FFF_FFFFu32 == 0,
{
    assert(b < 0x2000_0000 ==> b & !0x1FFF_FFFFu32 == 0) by (bit_vector);
}

/// A set of mods, as a bit set over the 29 bits that name a mod.
#[derive(Debug, Clone, Copy, PartialEq, Eq, Structural)]
pub struct Mods {
    bits: u32,
}

impl Mods {
    /// The bits of the set.
    pub closed spec fn spec_bits(self) -> u32 {
        self.bits
    }

    /// The set whose bits are `bits`.
    pub closed spec fn with_bits(bits: u32) -> Mods {
        Mods { bits }
    }

    /// The set's invariant: no bit outside the mod bits is set.
    pub closed spec fn wf(self) -> bool {
        self.bits & !all_mod_bits() == 0
    }

    /// The bits of the set.
    pub fn bits(&self) -> (r: u32)
        ensures
            r == self.spec_bits(),
    {
        self.bits
    }

    /// The set with bits `bits`, or `None` when a bit outside the mod bits is set.
    pub fn from_bits(bits: u32) -> (r: Option<Mods>)
        ensures
            r is Some <==> bits & !all_mod_bits() == 0,
            r matches Some(m) ==> m.spec_bits() == bits && m.wf() && m == Mods::with_bits(bits),
    {
        if bits & !0x1FFF_FFFFu32 == 0 {
            Some(Mods { bits })
        } else {
            None
        }
    }

    /// No selected mods (`0`)
    pub fn none() -> (r: Mods)
        ensures
            r.spec_bits() == 0,
            r.wf(),
    {
        proof {
            lemma_mod_bits(0);
        }
        Mods { bits: 0 }
    }

    /// No-Fail (NF) Makes the player incapabale of failing beatmaps, even if their life drops to zero. (`1`)
    pub fn no_fail() -> (r: Mods)
        ensures
            r.spec_bits() == 1,
            r.wf(),
    {
        proof {
            lemma_mod_bits(1);
        }
        Mods { bits: 1 }
    }

    /// Easy (EZ) halves the all difficulty settings for a beatmap, and gives the player 2 extra lives in modes other than taiko. (`2`)
    pub fn easy() -> (r: Mods)
        ensures
            r.spec_bits() == 2,
            r.wf(),
    {
        proof {
            lemma_mod_bits(2);
        }
        Mods { bits: 2 }
    }

    /// No Video (NV) disables the background video of a beatmap. It is no longer available for use, it was replaced with a setting. (`4`)
    pub fn no_video() -> (r: Mods)
        ensures
            r.spec_bits() == 4,
            r.wf(),
    {
        proof {
            lemma_mod_bits(4);
        }
        Mods { bits: 4 }
    }

    /// Hidden (HD) removes approach circles and causes hit objects to fade after appearing. (`8`)
    pub fn hidden() -> (r: Mods)
        ensures
            r.spec_bits() == 8,
            r.wf(),
    {
        proof {
            lemma_mod_bits(8);
        }
        Mods { bits: 8 }
    }

    /// Hard Rock (HR) increases CS by 30% and all other difficulty settings by 40%. (`16`)
    pub fn hard_rock() -> (r: Mods)
        ensures
            r.spec_bits() == 16,
            r.wf(),
    {
        proof {
            lemma_mod_bits(16);
        }
        Mods { bits: 16 }
    }

    /// Sudden Death (SD) will cause the player to fail after missing a hit object or slider tick. (`32`)
    pub fn sudden_death() -> (r: Mods)
        ensures
            r.spec_bits() == 32,
            r.wf(),
    {
        proof {
            lemma_mod_bits(32);
        }
        Mods { bits: 32 }
    }

    /// Double Time (DT) increasing the overall speed to 150%. (`64`)
    pub fn double_time() -> (r: Mods)
        ensures
            r.spec_bits() == 64,
            r.wf(),
    {
        proof {
            lemma_mod_bits(64);
        }
        Mods { bits: 64 }
    }

    /// Relax (RL) removes the need to tap hitobjects in standard, color judgement in taiko and allows free movement at any speed in catch. (`128`)
    pub fn relax() -> (r: Mods)
        ensures
            r.spec_bits() == 128,
            r.wf(),
    {
        proof {
            lemma_mod_bits(128);
        }
        Mods { bits: 128 }
    }

    /// Half Time (HT) decreases the overall speed to 75%. (`256`)
    pub fn half_time() -> (r: Mods)
        ensures
            r.spec_bits() == 256,
            r.wf(),
    {
        proof {
            lemma_mod_bits(256);
        }
        Mods { bits: 256 }
    }

    /// Nightcore (NC) has the same effect as doubletime, but increases the pitch and adds a drum tick in the background. Nightcore will only be set alongside doubletime. (`512`)
    pub fn nightcore() -> (r: Mods)
        ensures
            r.spec_bits() == 512,
            r.wf(),
    {
        proof {
            lemma_mod_bits(512);
        }
        Mods { bits: 512 }
    }

    /// Flashlight (FL) limits the visible area of the beatmap. (`1024`)
    pub fn flashlight() -> (r: Mods)
        ensures
            r.spec_bits() == 1024,
            r.wf(),
    {
        proof {
            lemma_mod_bits(1024);
        }
        Mods { bits: 1024 }
    }

    /// Autoplay plays the beatmap automatically. (`2048`)
    pub fn autoplay() -> (r: Mods)
        ensures
            r.spec_bits() == 2048,
            r.wf(),
    {
        proof {
            lemma_mod_bits(2048);
        }
        Mods { bits: 2048 }
    }

    /// SpunOut (SO) spins spinners automatically in osu!standard. (`4096`)
    pub fn spun_out() -> (r: Mods)
        ensures
            r.spec_bits() == 4096,
            r.wf(),
    {
        proof {
            lemma_mod_bits(4096);
        }
        Mods { bits: 4096 }
    }

    /// Autopilot (AP, Relax2) will automatically move the players cursor (osu!standard only). (`8192`)
    pub fn relax2() -> (r: Mods)
        ensures
            r.spec_bits() == 8192,
            r.wf(),
    {
        proof {
            lemma_mod_bits(8192);
        }
        Mods { bits: 8192 }
    }

    /// Perfect (PF) will fail the player if they miss or a score under 300 on a hit object, only set along with SuddenDeath. (`16384`)
    pub fn perfect() -> (r: Mods)
        ensures
            r.spec_bits() == 16384,
            r.wf(),
    {
        proof {
            lemma_mod_bits(16384);
        }
        Mods { bits: 16384 }
    }

    /// 4Key (4K, xK) forces maps converted into osu!mania to use 4 keys. (`32768`)
    pub fn key4() -> (r: Mods)
        ensures
            r.spec_bits() == 32768,
            r.wf(),
    {
        proof {
            lemma_mod_bits(32768);
        }
        Mods { bits: 32768 }
    }

    /// 5Key (5K, xK) forces maps converted into osu!mania to use 5 keys. (`65536`)
    pub fn key5() -> (r: Mods)
        ensures
            r.spec_bits() == 65536,
            r.wf(),
    {
        proof {
            lemma_mod_bits(65536);
        }
        Mods { bits: 65536 }
    }

    /// 6Key (6K, xK) forces maps converted into osu!mania to use 6 keys. (`131072`)
    pub fn key6() -> (r: Mods)
        ensures
            r.spec_bits() == 131072,
            r.wf(),
    {
        proof {
            lemma_mod_bits(131072);
        }
        Mods { bits: 131072 }
    }

    /// 7Key (7K, xK) forces maps converted into osu!mania to use 7 keys. (`262144`)
    pub fn key7() -> (r: Mods)
        ensures
            r.spec_bits() == 262144,
            r.wf(),
    {
        proof {
            lemma_mod_bits(262144);
        }
        Mods { bits: 262144 }
    }

    /// 8Key (8K, xK) forces maps converted into osu!mania to use 8 keys. (`1015808`)
    pub fn key8() -> (r: Mods)
        ensures
            r.spec_bits() == 1015808,
            r.wf(),
    {
        proof {
            lemma_mod_bits(1015808);
        }
        Mods { bits: 1015808 }
    }

    /// Fade In (FI) causes notes start invisible and fade in as they approach the judgement bar, only set along with Hidden (osu!mania only). (`1048576`)
    pub fn fade_in() -> (r: Mods)
        ensures
            r.spec_bits() == 1048576,
            r.wf(),
    {
        proof {
            lemma_mod_bits(1048576);
        }
        Mods { bits: 1048576 }
    }

    /// Random (RD) randomizes note placement (osu!mania only). (`2097152`)
    pub fn random() -> (r: Mods)
        ensures
            r.spec_bits() == 2097152,
            r.wf(),
    {
        proof {
            lemma_mod_bits(2097152);
        }
        Mods { bits: 2097152 }
    }

    /// Cinema (CM, LastMod) only plays the video or storyboard, without any gameplay. Hitsounds will still be heard. (`4194304`)
    pub fn last_mod() -> (r: Mods)
        ensures
            r.spec_bits() == 4194304,
            r.wf(),
    {
        proof {
            lemma_mod_bits(4194304);
        }
        Mods { bits: 4194304 }
    }

    /// Target Practice (TP) removes all mapped hitobjects and replaces them with a consistent set of target (osu!standard Cutting Edge only). (`8388608`)
    pub fn target_practice() -> (r: Mods)
        ensures
            r.spec_bits() == 8388608,
            r.wf(),
    {
        proof {
            lemma_mod_bits(8388608);
        }
        Mods { bits: 8388608 }
    }

    /// 9Key (9K, xK) forces maps converted into osu!mania to use 9 keys. (`16777216`)
    pub fn key9() -> (r: Mods)
        ensures
            r.spec_bits() == 16777216,
            r.wf(),
    {
        proof {
            lemma_mod_bits(16777216);
        }
        Mods { bits: 16777216 }
    }

    /// 10Key (10K, xK) forces maps converted into osu!mania to use 10 keys, it has been removed from the game. (`33554432`)
    pub fn key10() -> (r: Mods)
        ensures
            r.spec_bits() == 33554432,
            r.wf(),
    {
        proof {
            lemma_mod_bits(33554432);
        }
        Mods { bits: 33554432 }
    }

    /// 1Key (1K, xK) forces maps converted into osu!mania to use 1 key. (`67108864`)
    pub fn key1() -> (r: Mods)
        ensures
            r.spec_bits() == 67108864,
            r.wf(),
    {
        proof {
            lemma_mod_bits(67108864);
        }
        Mods { bits: 67108864 }
    }

    /// 3Key (3K, xK) forces maps converted into osu!mania to use 3 keys. (`134217728`)
    pub fn key3() -> (r: Mods)
        ensures
            r.spec_bits() == 134217728,
            r.wf(),
    {
        proof {
            lemma_mod_bits(134217728);
        }
        Mods { bits: 134217728 }
    }

    /// 2Key (2K, xK) forces maps converted into osu!mania to use 2 keys. (`268435456`)
    pub fn key2() -> (r: Mods)
        ensures
            r.spec_bits() == 268435456,
            r.wf(),
    {
        proof {
            lemma_mod_bits(268435456);
        }
        Mods { bits: 268435456 }
    }

    /// Bits of Key4, Key5, Key6, Key7, and Key8. (`1015808`)
    pub fn key_mod() -> (r: Mods)
        ensures
            r.spec_bits() == 1015808,
            r.wf(),
    {
        proof {
            lemma_mod_bits(1015808);
        }
        Mods { bits: 1015808 }
    }

    /// Mods allowed to be chosen when FreeMod is enabled in multiplayer. (`2077883`)
    pub fn free_mod_allowed() -> (r: Mods)
        ensures
            r.spec_bits() == 2077883,
            r.wf(),
    {
        proof {
            lemma_mod_bits(2077883);
        }
        Mods { bits: 2077883 }
    }

    /// The empty set.
    pub fn empty() -> (r: Mods)
        ensures
            r.spec_bits() == 0,
            r.wf(),
    {
        assert(0u32 & !0x1FFF_FFFFu32 == 0) by (bit_vector);
        Mods { bits: 0 }
    }

    /// The union of two sets.
    pub fn union(self, other: Mods) -> (r: Mods)
        requires
            self.wf(),
            other.wf(),
        ensures
            r.spec_bits() == self.spec_bits() | other.spec_bits(),
            r.wf(),
    {
        let a = self.bits;
        let b = other.bits;
        assert((a | b) & !0x1FFF_FFFFu32 == 0) by (bit_vector)
            requires
                a & !0x1FFF_FFFFu32 == 0,
                b & !0x1FFF_FFFFu32 == 0,
        ;
        Mods { bits: a | b }
    }

    /// Whether every mod of `other` is in the set.
    pub fn contains(&self, other: Mods) -> (r: bool)
        ensures
            r == (self.spec_bits() & other.spec_bits() == other.spec_bits()),
    {
        self.bits & other.bits == other.bits
    }

    /// The union of two sets contains each of them.
    pub proof fn union_contains_both(a: Mods, b: Mods)
        ensures
            (a.spec_bits() | b.spec_bits()) & a.spec_bits() == a.spec_bits(),
            (a.spec_bits() | b.spec_bits()) & b.spec_bits() == b.spec_bits(),
    {
        let x = a.spec_bits();
        let y = b.spec_bits();
        assert((x | y) & x == x && (x | y) & y == y) by (bit_vector);
    }

    /// Whether the two sets have a mod in common.
    pub fn intersects(&self, other: Mods) -> (r: bool)
        ensures
            r == (self.spec_bits() & other.spec_bits() != 0),
    {
        self.bits & other.bits != 0
    }
}

/// A timestamp or a duration in milliseconds.
#[derive(Debug, Clone, Copy, PartialEq, Eq, Structural)]
pub struct Millis(pub i32);

/// The editor's grid sizes.
#[derive(Debug, Clone, Copy, PartialEq, Eq, Structural)]
pub enum GridSize {
    /// 4
    Tiny,
    /// 8
    Small,
    /// 16
    Medium,
    /// 32
    Large,
}

impl GridSize {
    /// Different grid sizes have different numbers, so the number of a
    /// grid size reads back as that grid size.
    pub proof fn grid_size_number_identifies(a: GridSize, b: GridSize)
        ensures
            a.spec_value() == b.spec_value() ==> a == b,
    {
    }

    /// The size of the grid.
    pub open spec fn spec_value(self) -> u8 {
        match self {
            GridSize::Tiny => 4,
            GridSize::Small => 8,
            GridSize::Medium => 16,
            GridSize::Large => 32,
        }
    }

    /// Whether `v` is the size of a grid.
    pub open spec fn is_grid_size(v: u8) -> bool {
        v == 4 || v == 8 || v == 16 || v == 32
    }

    /// The size of the grid.
    pub fn value(self) -> (r: u8)
        ensures
            r == self.spec_value(),
    {
        match self {
            GridSize::Tiny => 4,
            GridSize::Small => 8,
            GridSize::Medium => 16,
            GridSize::Large => 32,
        }
    }

    /// The grid of size `v`: `None` unless `v` is 4, 8, 16 or 32.
    pub fn from_u8(v: u8) -> (r: Option<GridSize>)
        ensures
            r is Some <==> GridSize::is_grid_size(v),
            r matches Some(g) ==> g.spec_value() == v,
    {
        if v == 4 {
            Some(GridSize::Tiny)
        } else if v == 8 {
            Some(GridSize::Small)
        } else if v == 16 {
            Some(GridSize::Medium)
        } else if v == 32 {
            Some(GridSize::Large)
        } else {
            None
        }
    }
}

} // verus!
