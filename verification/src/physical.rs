//! Physical data of the bodies, as exact decimals.

use crate::bodies::{BodyId, ALL_BODIES};
use vstd::prelude::*;

verus! {

/// The number `mantissa / 10^places`. Every entry of this module has a
/// mantissa below 2^53 and at most 22 places, so that one division in double
/// precision gives the double nearest to it.
#[derive(Clone, Copy, Debug, PartialEq, Eq, Structural)]
pub struct Decimal {
    pub mantissa: i64,
    pub places: u32,
}

impl Decimal {
    /// Converts to a double with a single rounding.
    pub open spec fn exact(self) -> bool {
        -0x20_0000_0000_0000 < self.mantissa < 0x20_0000_0000_0000 && self.places <= 22
    }
}

/// Seconds in a day.
pub const DAY_S: u32 = 86_400;

/// Days in a Julian century.
pub const CENTURY_D: u32 = 36_525;

/// Speed of light, km/s.
#[verifier::allow_in_spec]
pub fn c_km_s() -> Decimal
    returns
        (Decimal { mantissa: 299_792_458, places: 3 }),
{
    Decimal { mantissa: 299_792_458, places: 3 }
}

/// Astronomical unit, km.
#[verifier::allow_in_spec]
pub fn au_km() -> Decimal
    returns
        (Decimal { mantissa: 1_495_978_707, places: 1 }),
{
    Decimal { mantissa: 1_495_978_707, places: 1 }
}

/// Zonal oblateness of a body.
#[derive(Clone, Copy, Debug, PartialEq, Eq, Structural)]
pub struct Oblateness {
    pub j2: Decimal,
    /// Equatorial radius, km.
    pub radius_km: Decimal,
    /// Right ascension of the pole, degrees.
    pub pole_ra: Decimal,
    /// Declination of the pole, degrees.
    pub pole_dec: Decimal,
}

/// A display colour, in hundredths of full intensity.
#[derive(Clone, Copy, Debug, PartialEq, Eq, Structural)]
pub struct Rgb {
    pub r: u8,
    pub g: u8,
    pub b: u8,
}

impl BodyId {
    /// Gravitational parameter, km^3/s^2.
    #[verifier::allow_in_spec]
    pub fn gm(self) -> Decimal
        returns
            (match self {
                BodyId::Sun => Decimal { mantissa: 132_712_440_041, places: 0 },
                BodyId::Mercury => Decimal { mantissa: 22_031_869, places: 3 },
                BodyId::Venus => Decimal { mantissa: 324_858_592, places: 3 },
                BodyId::Earth => Decimal { mantissa: 398_600_435_436, places: 6 },
                BodyId::Moon => Decimal { mantissa: 4_902_800_118, places: 6 },
                BodyId::Mars => Decimal { mantissa: 428_283_737, places: 4 },
                BodyId::Jupiter => Decimal { mantissa: 126_686_534, places: 0 },
                BodyId::Saturn => Decimal { mantissa: 37_931_187, places: 0 },
                BodyId::Uranus => Decimal { mantissa: 5_793_939, places: 0 },
                BodyId::Neptune => Decimal { mantissa: 6_835_100, places: 0 },
                BodyId::Pluto => Decimal { mantissa: 9_755, places: 1 },
                BodyId::Io => Decimal { mantissa: 59_599, places: 1 },
                BodyId::Europa => Decimal { mantissa: 32_027, places: 1 },
                BodyId::Ganymede => Decimal { mantissa: 98_878, places: 1 },
                BodyId::Callisto => Decimal { mantissa: 71_793, places: 1 },
                BodyId::Titan => Decimal { mantissa: 89_781, places: 1 },
                BodyId::Triton => Decimal { mantissa: 14_276, places: 1 },
                BodyId::Ceres => Decimal { mantissa: 62_628, places: 3 },
                BodyId::Vesta => Decimal { mantissa: 1_729, places: 2 },
                BodyId::Pallas => Decimal { mantissa: 1_363, places: 2 },
                BodyId::Hygiea => Decimal { mantissa: 58, places: 1 },
            }),
    {
        match self {
            BodyId::Sun => Decimal { mantissa: 132_712_440_041, places: 0 },
            BodyId::Mercury => Decimal { mantissa: 22_031_869, places: 3 },
            BodyId::Venus => Decimal { mantissa: 324_858_592, places: 3 },
            BodyId::Earth => Decimal { mantissa: 398_600_435_436, places: 6 },
            BodyId::Moon => Decimal { mantissa: 4_902_800_118, places: 6 },
            BodyId::Mars => Decimal { mantissa: 428_283_737, places: 4 },
            BodyId::Jupiter => Decimal { mantissa: 126_686_534, places: 0 },
            BodyId::Saturn => Decimal { mantissa: 37_931_187, places: 0 },
            BodyId::Uranus => Decimal { mantissa: 5_793_939, places: 0 },
            BodyId::Neptune => Decimal { mantissa: 6_835_100, places: 0 },
            BodyId::Pluto => Decimal { mantissa: 9_755, places: 1 },
            BodyId::Io => Decimal { mantissa: 59_599, places: 1 },
            BodyId::Europa => Decimal { mantissa: 32_027, places: 1 },
            BodyId::Ganymede => Decimal { mantissa: 98_878, places: 1 },
            BodyId::Callisto => Decimal { mantissa: 71_793, places: 1 },
            BodyId::Titan => Decimal { mantissa: 89_781, places: 1 },
            BodyId::Triton => Decimal { mantissa: 14_276, places: 1 },
            BodyId::Ceres => Decimal { mantissa: 62_628, places: 3 },
            BodyId::Vesta => Decimal { mantissa: 1_729, places: 2 },
            BodyId::Pallas => Decimal { mantissa: 1_363, places: 2 },
            BodyId::Hygiea => Decimal { mantissa: 58, places: 1 },
        }
    }

    /// Mean radius, km.
    #[verifier::allow_in_spec]
    pub fn radius_km(self) -> Decimal
        returns
            (match self {
                BodyId::Sun => Decimal { mantissa: 696_000, places: 0 },
                BodyId::Mercury => Decimal { mantissa: 24_397, places: 1 },
                BodyId::Venus => Decimal { mantissa: 60_518, places: 1 },
                BodyId::Earth => Decimal { mantissa: 6_371, places: 0 },
                BodyId::Moon => Decimal { mantissa: 17_374, places: 1 },
                BodyId::Mars => Decimal { mantissa: 33_895, places: 1 },
                BodyId::Jupiter => Decimal { mantissa: 69_911, places: 0 },
                BodyId::Saturn => Decimal { mantissa: 58_232, places: 0 },
                BodyId::Uranus => Decimal { mantissa: 25_362, places: 0 },
                BodyId::Neptune => Decimal { mantissa: 24_622, places: 0 },
                BodyId::Pluto => Decimal { mantissa: 11_883, places: 1 },
                BodyId::Io => Decimal { mantissa: 18_216, places: 1 },
                BodyId::Europa => Decimal { mantissa: 15_608, places: 1 },
                BodyId::Ganymede => Decimal { mantissa: 26_341, places: 1 },
                BodyId::Callisto => Decimal { mantissa: 24_103, places: 1 },
                BodyId::Titan => Decimal { mantissa: 25_747, places: 1 },
                BodyId::Triton => Decimal { mantissa: 13_534, places: 1 },
                BodyId::Ceres => Decimal { mantissa: 4_697, places: 1 },
                BodyId::Vesta => Decimal { mantissa: 2_627, places: 1 },
                BodyId::Pallas => Decimal { mantissa: 256, places: 0 },
                BodyId::Hygiea => Decimal { mantissa: 217, places: 0 },
            }),
    {
        match self {
            BodyId::Sun => Decimal { mantissa: 696_000, places: 0 },
            BodyId::Mercury => Decimal { mantissa: 24_397, places: 1 },
            BodyId::Venus => Decimal { mantissa: 60_518, places: 1 },
            BodyId::Earth => Decimal { mantissa: 6_371, places: 0 },
            BodyId::Moon => Decimal { mantissa: 17_374, places: 1 },
            BodyId::Mars => Decimal { mantissa: 33_895, places: 1 },
            BodyId::Jupiter => Decimal { mantissa: 69_911, places: 0 },
            BodyId::Saturn => Decimal { mantissa: 58_232, places: 0 },
            BodyId::Uranus => Decimal { mantissa: 25_362, places: 0 },
            BodyId::Neptune => Decimal { mantissa: 24_622, places: 0 },
            BodyId::Pluto => Decimal { mantissa: 11_883, places: 1 },
            BodyId::Io => Decimal { mantissa: 18_216, places: 1 },
            BodyId::Europa => Decimal { mantissa: 15_608, places: 1 },
            BodyId::Ganymede => Decimal { mantissa: 26_341, places: 1 },
            BodyId::Callisto => Decimal { mantissa: 24_103, places: 1 },
            BodyId::Titan => Decimal { mantissa: 25_747, places: 1 },
            BodyId::Triton => Decimal { mantissa: 13_534, places: 1 },
            BodyId::Ceres => Decimal { mantissa: 4_697, places: 1 },
            BodyId::Vesta => Decimal { mantissa: 2_627, places: 1 },
            BodyId::Pallas => Decimal { mantissa: 256, places: 0 },
            BodyId::Hygiea => Decimal { mantissa: 217, places: 0 },
        }
    }

    /// Oblateness, where it is modelled.
    #[verifier::allow_in_spec]
    pub fn j2_params(self) -> Option<Oblateness>
        returns
            (match self {
                BodyId::Mercury => Some(Oblateness { j2: Decimal { mantissa: 6, places: 5 }, radius_km: Decimal { mantissa: 24_405, places: 1 }, pole_ra: Decimal { mantissa: 2_810_103, places: 4 }, pole_dec: Decimal { mantissa: 614_155, places: 4 } }),
                BodyId::Venus => Some(Oblateness { j2: Decimal { mantissa: 4_458, places: 9 }, radius_km: Decimal { mantissa: 60_518, places: 1 }, pole_ra: Decimal { mantissa: 27_276, places: 2 }, pole_dec: Decimal { mantissa: 6_716, places: 2 } }),
                BodyId::Earth => Some(Oblateness { j2: Decimal { mantissa: 108_263, places: 8 }, radius_km: Decimal { mantissa: 6_378_137, places: 3 }, pole_ra: Decimal { mantissa: 0, places: 0 }, pole_dec: Decimal { mantissa: 90, places: 0 } }),
                BodyId::Moon => Some(Oblateness { j2: Decimal { mantissa: 20_323, places: 8 }, radius_km: Decimal { mantissa: 17_381, places: 1 }, pole_ra: Decimal { mantissa: 2_699_949, places: 4 }, pole_dec: Decimal { mantissa: 665_392, places: 4 } }),
                BodyId::Mars => Some(Oblateness { j2: Decimal { mantissa: 196_045, places: 8 }, radius_km: Decimal { mantissa: 339_619, places: 2 }, pole_ra: Decimal { mantissa: 31_768_143, places: 5 }, pole_dec: Decimal { mantissa: 528_865, places: 4 } }),
                BodyId::Jupiter => Some(Oblateness { j2: Decimal { mantissa: 14_696, places: 6 }, radius_km: Decimal { mantissa: 71_492, places: 0 }, pole_ra: Decimal { mantissa: 268_056, places: 3 }, pole_dec: Decimal { mantissa: 64_495, places: 3 } }),
                BodyId::Saturn => Some(Oblateness { j2: Decimal { mantissa: 16_291, places: 6 }, radius_km: Decimal { mantissa: 60_268, places: 0 }, pole_ra: Decimal { mantissa: 40_589, places: 3 }, pole_dec: Decimal { mantissa: 83_537, places: 3 } }),
                BodyId::Uranus => Some(Oblateness { j2: Decimal { mantissa: 351, places: 5 }, radius_km: Decimal { mantissa: 25_559, places: 0 }, pole_ra: Decimal { mantissa: 257_311, places: 3 }, pole_dec: Decimal { mantissa: (-15_175i64) as i64, places: 3 } }),
                BodyId::Neptune => Some(Oblateness { j2: Decimal { mantissa: 3_408, places: 6 }, radius_km: Decimal { mantissa: 24_764, places: 0 }, pole_ra: Decimal { mantissa: 29_936, places: 2 }, pole_dec: Decimal { mantissa: 4_346, places: 2 } }),
                _ => None,
            }),
    {
        match self {
            BodyId::Mercury => Some(Oblateness { j2: Decimal { mantissa: 6, places: 5 }, radius_km: Decimal { mantissa: 24_405, places: 1 }, pole_ra: Decimal { mantissa: 2_810_103, places: 4 }, pole_dec: Decimal { mantissa: 614_155, places: 4 } }),
            BodyId::Venus => Some(Oblateness { j2: Decimal { mantissa: 4_458, places: 9 }, radius_km: Decimal { mantissa: 60_518, places: 1 }, pole_ra: Decimal { mantissa: 27_276, places: 2 }, pole_dec: Decimal { mantissa: 6_716, places: 2 } }),
            BodyId::Earth => Some(Oblateness { j2: Decimal { mantissa: 108_263, places: 8 }, radius_km: Decimal { mantissa: 6_378_137, places: 3 }, pole_ra: Decimal { mantissa: 0, places: 0 }, pole_dec: Decimal { mantissa: 90, places: 0 } }),
            BodyId::Moon => Some(Oblateness { j2: Decimal { mantissa: 20_323, places: 8 }, radius_km: Decimal { mantissa: 17_381, places: 1 }, pole_ra: Decimal { mantissa: 2_699_949, places: 4 }, pole_dec: Decimal { mantissa: 665_392, places: 4 } }),
            BodyId::Mars => Some(Oblateness { j2: Decimal { mantissa: 196_045, places: 8 }, radius_km: Decimal { mantissa: 339_619, places: 2 }, pole_ra: Decimal { mantissa: 31_768_143, places: 5 }, pole_dec: Decimal { mantissa: 528_865, places: 4 } }),
            BodyId::Jupiter => Some(Oblateness { j2: Decimal { mantissa: 14_696, places: 6 }, radius_km: Decimal { mantissa: 71_492, places: 0 }, pole_ra: Decimal { mantissa: 268_056, places: 3 }, pole_dec: Decimal { mantissa: 64_495, places: 3 } }),
            BodyId::Saturn => Some(Oblateness { j2: Decimal { mantissa: 16_291, places: 6 }, radius_km: Decimal { mantissa: 60_268, places: 0 }, pole_ra: Decimal { mantissa: 40_589, places: 3 }, pole_dec: Decimal { mantissa: 83_537, places: 3 } }),
            BodyId::Uranus => Some(Oblateness { j2: Decimal { mantissa: 351, places: 5 }, radius_km: Decimal { mantissa: 25_559, places: 0 }, pole_ra: Decimal { mantissa: 257_311, places: 3 }, pole_dec: Decimal { mantissa: (-15_175i64) as i64, places: 3 } }),
            BodyId::Neptune => Some(Oblateness { j2: Decimal { mantissa: 3_408, places: 6 }, radius_km: Decimal { mantissa: 24_764, places: 0 }, pole_ra: Decimal { mantissa: 29_936, places: 2 }, pole_dec: Decimal { mantissa: 4_346, places: 2 } }),
            _ => None,
        }
    }

    /// Display colour.
    #[verifier::allow_in_spec]
    pub fn color(self) -> Rgb
        returns
            (match self {
                BodyId::Sun => Rgb { r: 100, g: 85, b: 30 },
                BodyId::Mercury => Rgb { r: 55, g: 50, b: 47 },
                BodyId::Venus => Rgb { r: 90, g: 75, b: 50 },
                BodyId::Earth => Rgb { r: 25, g: 45, b: 90 },
                BodyId::Moon => Rgb { r: 60, g: 60, b: 60 },
                BodyId::Mars => Rgb { r: 85, g: 40, b: 20 },
                BodyId::Jupiter => Rgb { r: 80, g: 65, b: 50 },
                BodyId::Saturn => Rgb { r: 85, g: 75, b: 55 },
                BodyId::Uranus => Rgb { r: 55, g: 80, b: 85 },
                BodyId::Neptune => Rgb { r: 30, g: 40, b: 85 },
                BodyId::Pluto => Rgb { r: 75, g: 68, b: 60 },
                BodyId::Io => Rgb { r: 90, g: 80, b: 40 },
                BodyId::Europa => Rgb { r: 75, g: 70, b: 60 },
                BodyId::Ganymede => Rgb { r: 60, g: 55, b: 50 },
                BodyId::Callisto => Rgb { r: 45, g: 42, b: 40 },
                BodyId::Titan => Rgb { r: 85, g: 65, b: 35 },
                BodyId::Triton => Rgb { r: 70, g: 72, b: 75 },
                BodyId::Ceres => Rgb { r: 60, g: 58, b: 55 },
                BodyId::Vesta => Rgb { r: 65, g: 60, b: 52 },
                BodyId::Pallas => Rgb { r: 55, g: 55, b: 58 },
                BodyId::Hygiea => Rgb { r: 45, g: 45, b: 48 },
            }),
    {
        match self {
            BodyId::Sun => Rgb { r: 100, g: 85, b: 30 },
            BodyId::Mercury => Rgb { r: 55, g: 50, b: 47 },
            BodyId::Venus => Rgb { r: 90, g: 75, b: 50 },
            BodyId::Earth => Rgb { r: 25, g: 45, b: 90 },
            BodyId::Moon => Rgb { r: 60, g: 60, b: 60 },
            BodyId::Mars => Rgb { r: 85, g: 40, b: 20 },
            BodyId::Jupiter => Rgb { r: 80, g: 65, b: 50 },
            BodyId::Saturn => Rgb { r: 85, g: 75, b: 55 },
            BodyId::Uranus => Rgb { r: 55, g: 80, b: 85 },
            BodyId::Neptune => Rgb { r: 30, g: 40, b: 85 },
            BodyId::Pluto => Rgb { r: 75, g: 68, b: 60 },
            BodyId::Io => Rgb { r: 90, g: 80, b: 40 },
            BodyId::Europa => Rgb { r: 75, g: 70, b: 60 },
            BodyId::Ganymede => Rgb { r: 60, g: 55, b: 50 },
            BodyId::Callisto => Rgb { r: 45, g: 42, b: 40 },
            BodyId::Titan => Rgb { r: 85, g: 65, b: 35 },
            BodyId::Triton => Rgb { r: 70, g: 72, b: 75 },
            BodyId::Ceres => Rgb { r: 60, g: 58, b: 55 },
            BodyId::Vesta => Rgb { r: 65, g: 60, b: 52 },
            BodyId::Pallas => Rgb { r: 55, g: 55, b: 58 },
            BodyId::Hygiea => Rgb { r: 45, g: 45, b: 48 },
        }
    }

    /// Orbital period in days, about the parent for a moon and about the Sun
    /// otherwise; negative for a retrograde orbit.
    #[verifier::allow_in_spec]
    pub fn period_days(self) -> Decimal
        returns
            (Decimal { mantissa: self.period_micro_days(), places: 6 }),
    {
        Decimal { mantissa: self.period_micro_days(), places: 6 }
    }

    /// Orbital period in millionths of a day: about the parent for a moon, about
    /// the Sun otherwise. Negative for a retrograde orbit.
    #[verifier::allow_in_spec]
    pub fn period_micro_days(self) -> i64
        returns
            (match self {
                BodyId::Sun => 1_000_000i64,
                BodyId::Mercury => 87_970_000i64,
                BodyId::Venus => 224_700_000i64,
                BodyId::Earth => 365_250_000i64,
                BodyId::Moon => 27_321_661i64,
                BodyId::Mars => 687_000_000i64,
                BodyId::Jupiter => 4_332_600_000i64,
                BodyId::Saturn => 10_759_200_000i64,
                BodyId::Uranus => 30_688_500_000i64,
                BodyId::Neptune => 60_182_000_000i64,
                BodyId::Pluto => 90_560_000_000i64,
                BodyId::Io => 1_769_138i64,
                BodyId::Europa => 3_551_181i64,
                BodyId::Ganymede => 7_154_553i64,
                BodyId::Callisto => 16_689_017i64,
                BodyId::Titan => 15_945_420i64,
                BodyId::Triton => (-5_876_854i64) as i64,
                BodyId::Ceres => 1_683_100_000i64,
                BodyId::Vesta => 1_325_750_000i64,
                BodyId::Pallas => 1_686_000_000i64,
                BodyId::Hygiea => 2_030_000_000i64,
            }),
    {
        match self {
            BodyId::Sun => 1_000_000i64,
            BodyId::Mercury => 87_970_000i64,
            BodyId::Venus => 224_700_000i64,
            BodyId::Earth => 365_250_000i64,
            BodyId::Moon => 27_321_661i64,
            BodyId::Mars => 687_000_000i64,
            BodyId::Jupiter => 4_332_600_000i64,
            BodyId::Saturn => 10_759_200_000i64,
            BodyId::Uranus => 30_688_500_000i64,
            BodyId::Neptune => 60_182_000_000i64,
            BodyId::Pluto => 90_560_000_000i64,
            BodyId::Io => 1_769_138i64,
            BodyId::Europa => 3_551_181i64,
            BodyId::Ganymede => 7_154_553i64,
            BodyId::Callisto => 16_689_017i64,
            BodyId::Titan => 15_945_420i64,
            BodyId::Triton => (-5_876_854i64) as i64,
            BodyId::Ceres => 1_683_100_000i64,
            BodyId::Vesta => 1_325_750_000i64,
            BodyId::Pallas => 1_686_000_000i64,
            BodyId::Hygiea => 2_030_000_000i64,
        }
    }

    /// Mean orbital radius of a moon about its parent, km; zero for other bodies.
    #[verifier::allow_in_spec]
    pub fn moon_orbit_radius_km(self) -> u32
        returns
            (match self {
                BodyId::Moon => 384_400u32,
                BodyId::Io => 421_700u32,
                BodyId::Europa => 671_034u32,
                BodyId::Ganymede => 1_070_412u32,
                BodyId::Callisto => 1_882_709u32,
                BodyId::Titan => 1_221_870u32,
                BodyId::Triton => 354_759u32,
                _ => 0u32,
            }),
    {
        match self {
            BodyId::Moon => 384_400u32,
            BodyId::Io => 421_700u32,
            BodyId::Europa => 671_034u32,
            BodyId::Ganymede => 1_070_412u32,
            BodyId::Callisto => 1_882_709u32,
            BodyId::Titan => 1_221_870u32,
            BodyId::Triton => 354_759u32,
            _ => 0u32,
        }
    }
}

/// Mean orbital elements in hundred-millionths: semi-major axis (AU),
/// eccentricity, inclination, mean longitude, longitude of perihelion and
/// longitude of the ascending node (degrees), at J2000 and per Julian century.
#[derive(Clone, Copy, Debug, PartialEq, Eq)]
pub struct Elements {
    pub base: [i64; 6],
    pub rate: [i64; 6],
}

/// Elements of a heliocentric body.
pub open spec fn elements_of(b: BodyId) -> Option<(Seq<i64>, Seq<i64>)> {
    match b {
        BodyId::Mercury => Some((seq![38_709_927i64, 20_563_593i64, 700_497_902i64, 25_225_032_350i64, 7_745_779_628i64, 4_833_076_593i64], seq![37i64, 1_906i64, (-594_749i64) as i64, 14_947_267_411_175i64, 16_047_689i64, (-12_534_081i64) as i64])),
        BodyId::Venus => Some((seq![72_333_566i64, 677_672i64, 339_467_605i64, 18_197_909_950i64, 13_160_246_718i64, 7_667_984_255i64], seq![390i64, (-4_107i64) as i64, (-78_890i64) as i64, 5_851_781_538_729i64, 268_329i64, (-27_769_418i64) as i64])),
        BodyId::Earth => Some((seq![100_000_261i64, 1_671_123i64, (-1_531i64) as i64, 10_046_457_166i64, 10_293_768_193i64, 0i64], seq![562i64, (-4_392i64) as i64, (-1_294_668i64) as i64, 3_599_937_244_981i64, 32_327_364i64, 0i64])),
        BodyId::Mars => Some((seq![152_371_034i64, 9_339_410i64, 184_969_142i64, (-455_343_205i64) as i64, (-2_394_362_959i64) as i64, 4_955_953_891i64], seq![1_847i64, 7_882i64, (-813_131i64) as i64, 1_914_030_268_499i64, 44_441_088i64, (-29_257_343i64) as i64])),
        BodyId::Jupiter => Some((seq![520_288_700i64, 4_838_624i64, 130_439_695i64, 3_439_644_051i64, 1_472_847_983i64, 10_047_390_909i64], seq![(-11_607i64) as i64, (-13_253i64) as i64, (-183_714i64) as i64, 303_474_612_775i64, 21_252_668i64, 20_469_106i64])),
        BodyId::Saturn => Some((seq![953_667_594i64, 5_386_179i64, 248_599_187i64, 4_995_424_423i64, 9_259_887_831i64, 11_366_242_448i64], seq![(-125_060i64) as i64, (-50_991i64) as i64, 193_609i64, 122_249_362_201i64, (-41_897_216i64) as i64, (-28_867_794i64) as i64])),
        BodyId::Uranus => Some((seq![1_918_916_464i64, 4_725_744i64, 77_263_783i64, 31_323_810_451i64, 17_095_427_630i64, 7_401_692_503i64], seq![(-196_176i64) as i64, (-4_397i64) as i64, (-242_939i64) as i64, 42_848_202_785i64, 40_805_281i64, 4_240_589i64])),
        BodyId::Neptune => Some((seq![3_006_992_276i64, 859_048i64, 177_004_347i64, (-5_512_002_969i64) as i64, 4_496_476_227i64, 13_178_422_574i64], seq![26_291i64, 5_105i64, 35_372i64, 21_845_945_325i64, (-32_241_464i64) as i64, (-508_664i64) as i64])),
        BodyId::Pluto => Some((seq![3_948_211_675i64, 24_882_730i64, 1_714_001_206i64, 23_892_903_833i64, 22_406_891_629i64, 11_030_393_684i64], seq![(-31_596i64) as i64, 5_170i64, 4_818i64, 14_520_780_515i64, (-4_062_942i64) as i64, (-1_183_482i64) as i64])),
        BodyId::Ceres => Some((seq![276_750_000i64, 7_580_000i64, 1_059_400_000i64, 18_606_000_000i64, 15_390_000_000i64, 8_031_000_000i64], seq![0i64, 0i64, 0i64, 781_230_000_000i64, 0i64, 0i64])),
        BodyId::Vesta => Some((seq![236_150_000i64, 8_870_000i64, 714_000_000i64, 35_040_000_000i64, 25_454_000_000i64, 10_381_000_000i64], seq![0i64, 0i64, 0i64, 991_950_000_000i64, 0i64, 0i64])),
        BodyId::Pallas => Some((seq![277_300_000i64, 22_990_000i64, 3_483_000_000i64, 16_370_000_000i64, 12_308_000_000i64, 17_308_000_000i64], seq![0i64, 0i64, 0i64, 779_920_000_000i64, 0i64, 0i64])),
        BodyId::Hygiea => Some((seq![314_210_000i64, 11_250_000i64, 384_000_000i64, 7_500_000_000i64, 23_550_000_000i64, 28_320_000_000i64], seq![0i64, 0i64, 0i64, 647_730_000_000i64, 0i64, 0i64])),
        _ => None,
    }
}

/// Elements of a heliocentric body; `None` for the Sun and the moons.
pub fn elements(b: BodyId) -> (r: Option<Elements>)
    ensures
        match r {
            Some(e) => elements_of(b) == Some((e.base@, e.rate@)),
            None => elements_of(b) is None,
        },
{
    let r: Option<Elements> = match b {
        BodyId::Mercury => Some(Elements { base: [38_709_927, 20_563_593, 700_497_902, 25_225_032_350, 7_745_779_628, 4_833_076_593], rate: [37, 1_906, -594_749, 14_947_267_411_175, 16_047_689, -12_534_081] }),
        BodyId::Venus => Some(Elements { base: [72_333_566, 677_672, 339_467_605, 18_197_909_950, 13_160_246_718, 7_667_984_255], rate: [390, -4_107, -78_890, 5_851_781_538_729, 268_329, -27_769_418] }),
        BodyId::Earth => Some(Elements { base: [100_000_261, 1_671_123, -1_531, 10_046_457_166, 10_293_768_193, 0], rate: [562, -4_392, -1_294_668, 3_599_937_244_981, 32_327_364, 0] }),
        BodyId::Mars => Some(Elements { base: [152_371_034, 9_339_410, 184_969_142, -455_343_205, -2_394_362_959, 4_955_953_891], rate: [1_847, 7_882, -813_131, 1_914_030_268_499, 44_441_088, -29_257_343] }),
        BodyId::Jupiter => Some(Elements { base: [520_288_700, 4_838_624, 130_439_695, 3_439_644_051, 1_472_847_983, 10_047_390_909], rate: [-11_607, -13_253, -183_714, 303_474_612_775, 21_252_668, 20_469_106] }),
        BodyId::Saturn => Some(Elements { base: [953_667_594, 5_386_179, 248_599_187, 4_995_424_423, 9_259_887_831, 11_366_242_448], rate: [-125_060, -50_991, 193_609, 122_249_362_201, -41_897_216, -28_867_794] }),
        BodyId::Uranus => Some(Elements { base: [1_918_916_464, 4_725_744, 77_263_783, 31_323_810_451, 17_095_427_630, 7_401_692_503], rate: [-196_176, -4_397, -242_939, 42_848_202_785, 40_805_281, 4_240_589] }),
        BodyId::Neptune => Some(Elements { base: [3_006_992_276, 859_048, 177_004_347, -5_512_002_969, 4_496_476_227, 13_178_422_574], rate: [26_291, 5_105, 35_372, 21_845_945_325, -32_241_464, -508_664] }),
        BodyId::Pluto => Some(Elements { base: [3_948_211_675, 24_882_730, 1_714_001_206, 23_892_903_833, 22_406_891_629, 11_030_393_684], rate: [-31_596, 5_170, 4_818, 14_520_780_515, -4_062_942, -1_183_482] }),
        BodyId::Ceres => Some(Elements { base: [276_750_000, 7_580_000, 1_059_400_000, 18_606_000_000, 15_390_000_000, 8_031_000_000], rate: [0, 0, 0, 781_230_000_000, 0, 0] }),
        BodyId::Vesta => Some(Elements { base: [236_150_000, 8_870_000, 714_000_000, 35_040_000_000, 25_454_000_000, 10_381_000_000], rate: [0, 0, 0, 991_950_000_000, 0, 0] }),
        BodyId::Pallas => Some(Elements { base: [277_300_000, 22_990_000, 3_483_000_000, 16_370_000_000, 12_308_000_000, 17_308_000_000], rate: [0, 0, 0, 779_920_000_000, 0, 0] }),
        BodyId::Hygiea => Some(Elements { base: [314_210_000, 11_250_000, 384_000_000, 7_500_000_000, 23_550_000_000, 28_320_000_000], rate: [0, 0, 0, 647_730_000_000, 0, 0] }),
        _ => None,
    };
    proof {
        if let Some(e) = r {
            let t = elements_of(b)->0;
            assert(e.base@ =~= t.0);
            assert(e.rate@ =~= t.1);
        }
    }
    r
}

/// Every body but the Sun has a fallback model: a moon circles its parent, and
/// every other body has orbital elements.
pub proof fn every_body_has_a_model(b: BodyId)
    ensures
        b == BodyId::Sun || b.parent() is Some || elements_of(b) is Some,
        elements_of(b) is Some ==> b != BodyId::Sun && b.parent() is None,
{
}

/// Every table entry converts to a double with a single rounding, and every
/// mass, radius and period is usable as a divisor.
pub proof fn tables_are_exact(b: BodyId)
    ensures
        b.gm().exact() && b.gm().mantissa > 0,
        b.radius_km().exact() && b.radius_km().mantissa > 0,
        b.period_micro_days() != 0,
        b.period_micro_days() < 0 <==> b == BodyId::Triton,
        b.moon_orbit_radius_km() > 0 <==> b.parent() is Some,
        b.j2_params() matches Some(j) ==> j.j2.exact() && j.radius_km.exact() && j.pole_ra.exact()
            && j.pole_dec.exact(),
        b.color().r <= 100 && b.color().g <= 100 && b.color().b <= 100,
{
}

// ---------------------------------------------------------------- agreement

/// `a` and `b` agree to one part in `parts` of `b`.
pub open spec fn agree(a: int, b: int, parts: int) -> bool {
    -b <= parts * (a - b) <= b
}

/// Ten to the number of places of an entry.
pub open spec fn scale(places: u32) -> int {
    if places == 0 {
        1
    } else if places == 1 {
        10
    } else if places == 2 {
        100
    } else if places == 3 {
        1_000
    } else if places == 4 {
        10_000
    } else if places == 5 {
        100_000
    } else {
        1_000_000
    }
}

/// An orbit about the Sun of semi-major axis `a`, in hundred-millionths of an
/// astronomical unit, whose mean longitude grows by `rate` hundred-millionths of a
/// degree in a century, keeps the period of `t` millionths of a day: one turn in
/// each, to one part in a thousand; and the cube of the axis is as the square of
/// the period, to one part in two hundred.
pub open spec fn keeps_time(a: int, rate: int, t: int) -> bool {
    &&& a > 0 && rate > 0 && t > 0
    &&& agree(rate * t, 36_000_000_000int * 36_525_000_000int, 1_000)
    &&& agree(
        (a * a * a) * (365_250_000int * 365_250_000int),
        (t * t) * (100_000_000int * 100_000_000int * 100_000_000int),
        200,
    )
}

/// The elements and the periods are tables of their own, and they agree. A body
/// goes round the Sun the way all of them do, once in its period; and the cube
/// of its distance is as the square of that period.
#[verifier::rlimit(40)]
pub proof fn elements_agree_with_periods(b: BodyId)
    ensures
        elements_of(b) matches Some((base, rate)) ==> base.len() == 6 && rate.len() == 6
            && keeps_time(base[0] as int, rate[3] as int, b.period_micro_days() as int),
{
    assert(keeps_time(38_709_927, 14_947_267_411_175, 87_970_000)) by (nonlinear_arith);
    assert(keeps_time(72_333_566, 5_851_781_538_729, 224_700_000)) by (nonlinear_arith);
    assert(keeps_time(100_000_261, 3_599_937_244_981, 365_250_000)) by (nonlinear_arith);
    assert(keeps_time(152_371_034, 1_914_030_268_499, 687_000_000)) by (nonlinear_arith);
    assert(keeps_time(520_288_700, 303_474_612_775, 4_332_600_000)) by (nonlinear_arith);
    assert(keeps_time(953_667_594, 122_249_362_201, 10_759_200_000)) by (nonlinear_arith);
    assert(keeps_time(1_918_916_464, 42_848_202_785, 30_688_500_000)) by (nonlinear_arith);
    assert(keeps_time(3_006_992_276, 21_845_945_325, 60_182_000_000)) by (nonlinear_arith);
    assert(keeps_time(3_948_211_675, 14_520_780_515, 90_560_000_000)) by (nonlinear_arith);
    assert(keeps_time(276_750_000, 781_230_000_000, 1_683_100_000)) by (nonlinear_arith);
    assert(keeps_time(236_150_000, 991_950_000_000, 1_325_750_000)) by (nonlinear_arith);
    assert(keeps_time(277_300_000, 779_920_000_000, 1_686_000_000)) by (nonlinear_arith);
    assert(keeps_time(314_210_000, 647_730_000_000, 2_030_000_000)) by (nonlinear_arith);
}

/// What the other elements of an orbit can be: an ellipse that is not very long,
/// not very steep, and turns slowly; its angles lie within one turn.
#[verifier::rlimit(40)]
pub proof fn orbits_are_mild(b: BodyId)
    ensures
        elements_of(b) matches Some((base, rate)) ==> {
            &&& 0 < base[1] < 25_000_000
            &&& -2_000 < base[2] < 3_500_000_000
            &&& forall|k: int| 3 <= k < 6 ==> -36_000_000_000 < #[trigger] base[k] < 36_000_000_000
            &&& -200_000 < rate[0] < 30_000
            &&& -60_000 < rate[1] < 10_000
            &&& -1_300_000 < rate[2] < 200_000
            &&& -45_000_000 < rate[4] < 45_000_000
            &&& -30_000_000 < rate[5] < 21_000_000
        },
{
    if elements_of(b) is Some {
        let base = (elements_of(b)->0).0;
        assert forall|k: int| 3 <= k < 6 implies -36_000_000_000 < #[trigger] base[k]
            < 36_000_000_000 by {
            assert(k == 3 || k == 4 || k == 5);
        }
    }
}

/// Earth's mean longitude, carried on from J2000 to the equinox of that March,
/// 78.8 days later, is half a turn to within three degrees.
pub proof fn equinox_is_in_march()
    ensures
        elements_of(BodyId::Earth) matches Some((base, rate)) && agree(
            base[3] + rate[3] * 788 / 365_250,
            18_000_000_000,
            60,
        ),
{
}

/// A circle of radius `r` km, gone round in `t` millionths of a day, about a body
/// whose gravity is `gm` by `parts`: the cube of the one is as the square of the
/// other, to one part in `tolerance`.
pub open spec fn circles(r: int, t: int, gm: int, parts: int, tolerance: int) -> bool {
    agree(
        394_784_176 * (r * r * r) * parts * 1_000_000_000_000,
        gm * (86_400 * t * (86_400 * t)) * 10_000_000,
        tolerance,
    )
}

/// A moon's distance, its period and its parent's gravity are tables of their
/// own, and they agree.
pub proof fn moons_obey_their_parents(b: BodyId)
    ensures
        b.parent() matches Some(p) ==> circles(
            b.moon_orbit_radius_km() as int,
            b.period_micro_days() as int,
            p.gm().mantissa as int,
            scale(p.gm().places),
            100,
        ),
{
    assert(circles(384_400, 27_321_661, 398_600_435_436, 1_000_000, 100)) by (nonlinear_arith);
    assert(circles(421_700, 1_769_138, 126_686_534, 1, 100)) by (nonlinear_arith);
    assert(circles(671_034, 3_551_181, 126_686_534, 1, 100)) by (nonlinear_arith);
    assert(circles(1_070_412, 7_154_553, 126_686_534, 1, 100)) by (nonlinear_arith);
    assert(circles(1_882_709, 16_689_017, 126_686_534, 1, 100)) by (nonlinear_arith);
    assert(circles(1_221_870, 15_945_420, 37_931_187, 1, 100)) by (nonlinear_arith);
    assert(circles(354_759, -5_876_854, 6_835_100, 1, 100)) by (nonlinear_arith);
}

/// The Sun's gravity keeps a body at one astronomical unit on Earth's period.
pub proof fn sun_holds_earth()
    ensures
        circles(
            au_km().mantissa as int,
            BodyId::Earth.period_micro_days() as int,
            BodyId::Sun.gm().mantissa * 1_000,
            scale(BodyId::Sun.gm().places),
            5_000,
        ),
        scale(au_km().places) == 10,
{
    assert(circles(1_495_978_707, 365_250_000, 132_712_440_041_000, 1, 5_000)) by (nonlinear_arith);
}

/// A body of gravity `gm` by `g` and of radius `r` by `s` is no denser than Earth
/// and no lighter than Saturn.
pub open spec fn is_a_world(gm: int, g: int, r: int, s: int) -> bool {
    19 * ((r * r * r) * g) <= gm * (s * s * s) * 100_000_000 <= 155 * ((r * r * r) * g)
}

/// The gravity and the radius of a body are tables of their own, and they come
/// to the density of a world.
pub proof fn densities_are_those_of_worlds(b: BodyId)
    ensures
        is_a_world(
            b.gm().mantissa as int,
            scale(b.gm().places),
            b.radius_km().mantissa as int,
            scale(b.radius_km().places),
        ),
{
    assert(is_a_world(132_712_440_041, 1, 696_000, 1)) by (nonlinear_arith);
    assert(is_a_world(22_031_869, 1_000, 24_397, 10)) by (nonlinear_arith);
    assert(is_a_world(324_858_592, 1_000, 60_518, 10)) by (nonlinear_arith);
    assert(is_a_world(398_600_435_436, 1_000_000, 6_371, 1)) by (nonlinear_arith);
    assert(is_a_world(4_902_800_118, 1_000_000, 17_374, 10)) by (nonlinear_arith);
    assert(is_a_world(428_283_737, 10_000, 33_895, 10)) by (nonlinear_arith);
    assert(is_a_world(126_686_534, 1, 69_911, 1)) by (nonlinear_arith);
    assert(is_a_world(37_931_187, 1, 58_232, 1)) by (nonlinear_arith);
    assert(is_a_world(5_793_939, 1, 25_362, 1)) by (nonlinear_arith);
    assert(is_a_world(6_835_100, 1, 24_622, 1)) by (nonlinear_arith);
    assert(is_a_world(9_755, 10, 11_883, 10)) by (nonlinear_arith);
    assert(is_a_world(59_599, 10, 18_216, 10)) by (nonlinear_arith);
    assert(is_a_world(32_027, 10, 15_608, 10)) by (nonlinear_arith);
    assert(is_a_world(98_878, 10, 26_341, 10)) by (nonlinear_arith);
    assert(is_a_world(71_793, 10, 24_103, 10)) by (nonlinear_arith);
    assert(is_a_world(89_781, 10, 25_747, 10)) by (nonlinear_arith);
    assert(is_a_world(14_276, 10, 13_534, 10)) by (nonlinear_arith);
    assert(is_a_world(62_628, 1_000, 4_697, 10)) by (nonlinear_arith);
    assert(is_a_world(1_729, 100, 2_627, 10)) by (nonlinear_arith);
    assert(is_a_world(1_363, 100, 256, 1)) by (nonlinear_arith);
    assert(is_a_world(58, 10, 217, 1)) by (nonlinear_arith);
}

/// An equator of radius `e` by `q` is no nearer to the centre than a mean surface
/// of radius `r` by `s`, and bulges by less than one part in twenty-five.
pub open spec fn bulges(e: int, q: int, r: int, s: int) -> bool {
    r * q <= e * s && 25 * (e * s - r * q) <= r * q
}

/// The radius that the oblateness goes with is that of the equator, and the pole
/// is a point of the sky.
#[verifier::rlimit(40)]
pub proof fn equators_bulge(b: BodyId)
    ensures
        b.j2_params() matches Some(j) ==> {
            &&& bulges(
                j.radius_km.mantissa as int,
                scale(j.radius_km.places),
                b.radius_km().mantissa as int,
                scale(b.radius_km().places),
            )
            &&& 0 < j.j2.mantissa
            &&& -90 * scale(j.pole_dec.places) <= j.pole_dec.mantissa <= 90 * scale(
                j.pole_dec.places,
            )
            &&& 0 <= j.pole_ra.mantissa < 360 * scale(j.pole_ra.places)
        },
{
    assert(bulges(24_405, 10, 24_397, 10)) by (nonlinear_arith);
    assert(bulges(60_518, 10, 60_518, 10)) by (nonlinear_arith);
    assert(bulges(6_378_137, 1_000, 6_371, 1)) by (nonlinear_arith);
    assert(bulges(17_381, 10, 17_374, 10)) by (nonlinear_arith);
    assert(bulges(339_619, 100, 33_895, 10)) by (nonlinear_arith);
    assert(bulges(71_492, 1, 69_911, 1)) by (nonlinear_arith);
    assert(bulges(60_268, 1, 58_232, 1)) by (nonlinear_arith);
    assert(bulges(25_559, 1, 25_362, 1)) by (nonlinear_arith);
    assert(bulges(24_764, 1, 24_622, 1)) by (nonlinear_arith);
}

/// The total of the first `n` entries of a column, each by its place in the
/// catalogue.
pub open spec fn weighed(column: spec_fn(BodyId) -> int, n: nat) -> int
    decreases n,
{
    if n == 0 {
        0
    } else {
        weighed(column, (n - 1) as nat) + n * column(ALL_BODIES@[n - 1])
    }
}

/// The elements of a body, mixed to one number.
#[verifier::opaque]
pub open spec fn mixed_elements(b: BodyId) -> int {
    match elements_of(b) {
        Some((p, q)) => p[0] + 3 * p[1] + 5 * p[2] + 7 * p[3] + 11 * p[4] + 13 * p[5] + 17 * q[0]
            + 19 * q[1] + 23 * q[2] + 29 * q[3] + 31 * q[4] + 37 * q[5],
        None => 0,
    }
}

/// The oblateness of a body, mixed to one number.
pub open spec fn mixed_oblateness(b: BodyId) -> int {
    match b.j2_params() {
        Some(j) => j.j2.mantissa + 3 * j.radius_km.mantissa + 5 * j.pole_ra.mantissa + 7
            * j.pole_dec.mantissa,
        None => 0,
    }
}

/// The places of the oblateness of a body, mixed to one number.
pub open spec fn mixed_places(b: BodyId) -> int {
    match b.j2_params() {
        Some(j) => j.j2.places + 3 * j.radius_km.places + 5 * j.pole_ra.places + 7
            * j.pole_dec.places,
        None => 0,
    }
}

proof fn weighed_out(f: spec_fn(BodyId) -> int)
    ensures
        weighed(f, 21) == f(BodyId::Sun) + 2 * f(BodyId::Mercury) + 3 * f(BodyId::Venus) + 4 * f(
            BodyId::Earth,
        ) + 5 * f(BodyId::Moon) + 6 * f(BodyId::Mars) + 7 * f(BodyId::Jupiter) + 8 * f(
            BodyId::Saturn,
        ) + 9 * f(BodyId::Uranus) + 10 * f(BodyId::Neptune) + 11 * f(BodyId::Pluto) + 12 * f(
            BodyId::Io,
        ) + 13 * f(BodyId::Europa) + 14 * f(BodyId::Ganymede) + 15 * f(BodyId::Callisto) + 16 * f(
            BodyId::Titan,
        ) + 17 * f(BodyId::Triton) + 18 * f(BodyId::Ceres) + 19 * f(BodyId::Vesta) + 20 * f(
            BodyId::Pallas,
        ) + 21 * f(BodyId::Hygiea),
{
    reveal_with_fuel(weighed, 22);
}

proof fn gravities_add_up()
    ensures
        weighed(|b: BodyId| b.gm().mantissa as int, 21) == 1_756_533_843_848,
{
    weighed_out(|b: BodyId| b.gm().mantissa as int);
}

proof fn gravity_places_add_up()
    ensures
        weighed(|b: BodyId| b.gm().places as int, 21) == 344,
{
    weighed_out(|b: BodyId| b.gm().places as int);
}

proof fn radii_add_up()
    ensures
        weighed(|b: BodyId| b.radius_km().mantissa as int, 21) == 4_740_477,
{
    weighed_out(|b: BodyId| b.radius_km().mantissa as int);
}

proof fn radius_places_add_up()
    ensures
        weighed(|b: BodyId| b.radius_km().places as int, 21) == 151,
{
    weighed_out(|b: BodyId| b.radius_km().places as int);
}

proof fn periods_add_up()
    ensures
        weighed(|b: BodyId| b.period_micro_days() as int, 21) == 2_129_557_112_513,
{
    weighed_out(|b: BodyId| b.period_micro_days() as int);
}

proof fn colors_add_up()
    ensures
        weighed(|b: BodyId| b.color().r + 3 * b.color().g + 5 * b.color().b, 21) == 119_478,
{
    weighed_out(|b: BodyId| b.color().r + 3 * b.color().g + 5 * b.color().b);
}

#[verifier::rlimit(40)]
proof fn elements_mixed()
    ensures
        mixed_elements(BodyId::Mercury) == 433_798_986_687_336,
        mixed_elements(BodyId::Venus) == 170_074_247_170_471,
        mixed_elements(BodyId::Earth) == 104_582_814_057_735,
        mixed_elements(BodyId::Mars) == 55_543_161_658_225,
        mixed_elements(BodyId::Jupiter) == 8_974_257_206_591,
        mixed_elements(BodyId::Saturn) == 3_829_666_650_905,
        mixed_elements(BodyId::Uranus) == 1_749_868_532_374,
        mixed_elements(BodyId::Neptune) == 818_606_768_302,
        mixed_elements(BodyId::Pluto) == 990_646_685_348,
        mixed_elements(BodyId::Ceres) == 23_065_201_490_000,
        mixed_elements(BodyId::Vesta) == 29_430_609_760_000,
        mixed_elements(BodyId::Pallas) == 23_110_423_270_000,
        mixed_elements(BodyId::Hygiea) == 19_466_147_960_000,
        mixed_elements(BodyId::Sun) == 0,
        mixed_elements(BodyId::Moon) == 0,
        mixed_elements(BodyId::Io) == 0,
        mixed_elements(BodyId::Europa) == 0,
        mixed_elements(BodyId::Ganymede) == 0,
        mixed_elements(BodyId::Callisto) == 0,
        mixed_elements(BodyId::Titan) == 0,
        mixed_elements(BodyId::Triton) == 0,
{
    reveal(mixed_elements);
}

#[verifier::rlimit(40)]
proof fn elements_add_up()
    ensures
        weighed(|b: BodyId| mixed_elements(b), 21) == 4_103_052_857_552_966,
{
    elements_mixed();
    weighed_out(|b: BodyId| mixed_elements(b));
}

proof fn oblateness_add_up()
    ensures
        weighed(|b: BodyId| mixed_oblateness(b), 21) == 1_224_541_930,
{
    weighed_out(|b: BodyId| mixed_oblateness(b));
}

proof fn oblateness_places_add_up()
    ensures
        weighed(|b: BodyId| mixed_places(b), 21) == 2_284,
{
    weighed_out(|b: BodyId| mixed_places(b));
}

proof fn circles_add_up()
    ensures
        weighed(|b: BodyId| b.moon_orbit_radius_km() as int, 21) == 84_513_068,
{
    weighed_out(|b: BodyId| b.moon_orbit_radius_km() as int);
}

/// Control totals of the tables: no entry can change, and no two can be
/// exchanged, without one of them changing.
#[verifier::rlimit(40)]
pub proof fn tables_add_up()
    ensures
        weighed(|b: BodyId| b.gm().mantissa as int, 21) == 1_756_533_843_848,
        weighed(|b: BodyId| b.gm().places as int, 21) == 344,
        weighed(|b: BodyId| b.radius_km().mantissa as int, 21) == 4_740_477,
        weighed(|b: BodyId| b.radius_km().places as int, 21) == 151,
        weighed(|b: BodyId| b.period_micro_days() as int, 21) == 2_129_557_112_513,
        weighed(|b: BodyId| b.color().r + 3 * b.color().g + 5 * b.color().b, 21) == 119_478,
        weighed(|b: BodyId| mixed_elements(b), 21) == 4_103_052_857_552_966,
        weighed(|b: BodyId| mixed_oblateness(b), 21) == 1_224_541_930,
        weighed(|b: BodyId| mixed_places(b), 21) == 2_284,
        weighed(|b: BodyId| b.moon_orbit_radius_km() as int, 21) == 84_513_068,
{
    circles_add_up();
    gravities_add_up();
    gravity_places_add_up();
    radii_add_up();
    radius_places_add_up();
    periods_add_up();
    colors_add_up();
    elements_add_up();
    oblateness_add_up();
    oblateness_places_add_up();
}

/// Light takes 499.004784 seconds for an astronomical unit, and a Julian century has
/// 3,155,760,000 seconds.
pub proof fn constants_agree()
    ensures
        agree(
            au_km().mantissa * scale(c_km_s().places) * 1_000_000,
            499_004_784 * c_km_s().mantissa * scale(au_km().places),
            1_000_000_000,
        ),
        DAY_S * CENTURY_D == 3_155_760_000,
{
}

} // verus!
