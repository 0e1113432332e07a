//! Companding tables of the supported instruments, and the transforms between
//! companded 8-bit pixel values and linear values that they define.

use vstd::prelude::*;
use crate::enums::Instrument;
use crate::error::Error;
use crate::imagebuffer::ImageBuffer;

verus! {

/// Number of entries of a companding table: one for each 8-bit raw value.
pub const ILT_LEN: usize = 256;

/// Largest raw (companded) pixel value.
pub const MAX_RAW_VALUE: u32 = 255;

/// The general-purpose table. Entry `r` is the linear value of raw value `r`.
pub const ILT: [u32; 256] = [
    0, 2, 3, 3, 4, 5, 5, 6, 7, 8, 9, 10,
    11, 12, 14, 15, 16, 18, 19, 20, 22, 24, 25, 27,
    29, 31, 33, 35, 37, 39, 41, 43, 46, 48, 50, 53,
    55, 58, 61, 63, 66, 69, 72, 75, 78, 81, 84, 87,
    90, 94, 97, 100, 104, 107, 111, 115, 118, 122, 126, 130,
    134, 138, 142, 146, 150, 154, 159, 163, 168, 172, 177, 181,
    186, 191, 196, 201, 206, 211, 216, 221, 226, 231, 236, 241,
    247, 252, 258, 263, 269, 274, 280, 286, 292, 298, 304, 310,
    316, 322, 328, 334, 341, 347, 354, 360, 367, 373, 380, 387,
    394, 401, 408, 415, 422, 429, 436, 443, 450, 458, 465, 472,
    480, 487, 495, 503, 510, 518, 526, 534, 542, 550, 558, 566,
    575, 583, 591, 600, 608, 617, 626, 634, 643, 652, 661, 670,
    679, 688, 697, 706, 715, 724, 733, 743, 752, 761, 771, 781,
    790, 800, 810, 819, 829, 839, 849, 859, 869, 880, 890, 900,
    911, 921, 932, 942, 953, 964, 974, 985, 996, 1007, 1018, 1029,
    1040, 1051, 1062, 1074, 1085, 1096, 1108, 1119, 1131, 1142, 1154, 1166,
    1177, 1189, 1201, 1213, 1225, 1237, 1249, 1262, 1274, 1286, 1299, 1311,
    1324, 1336, 1349, 1362, 1374, 1387, 1400, 1413, 1426, 1439, 1452, 1465,
    1479, 1492, 1505, 1519, 1532, 1545, 1559, 1573, 1586, 1600, 1614, 1628,
    1642, 1656, 1670, 1684, 1698, 1712, 1727, 1741, 1755, 1770, 1784, 1799,
    1814, 1828, 1843, 1858, 1873, 1888, 1903, 1918, 1933, 1948, 1963, 1979,
    1994, 2009, 2025, 2033,
];

/// The table of the InSight cameras (ICC and IDC).
pub const NSYT_ILT: [u32; 256] = [
    0, 0, 0, 0, 0, 1, 1, 2, 2, 3, 3, 4,
    5, 6, 7, 8, 9, 11, 12, 14, 15, 17, 19, 21,
    23, 25, 27, 29, 32, 34, 37, 40, 43, 46, 49, 52,
    55, 59, 62, 66, 70, 73, 77, 82, 86, 90, 95, 99,
    104, 109, 114, 119, 124, 129, 135, 140, 146, 152, 158, 164,
    170, 176, 182, 189, 196, 202, 209, 216, 224, 231, 238, 246,
    254, 261, 269, 277, 286, 294, 302, 311, 320, 328, 337, 347,
    356, 365, 375, 384, 394, 404, 414, 424, 435, 445, 456, 467,
    477, 488, 500, 511, 522, 534, 545, 557, 569, 581, 594, 606,
    619, 631, 644, 657, 670, 683, 697, 710, 724, 738, 752, 766,
    780, 794, 809, 823, 838, 853, 868, 884, 899, 914, 930, 946,
    962, 978, 994, 1011, 1027, 1044, 1061, 1078, 1095, 1112, 1130, 1147,
    1165, 1183, 1201, 1219, 1237, 1256, 1274, 1293, 1312, 1331, 1350, 1370,
    1389, 1409, 1429, 1449, 1469, 1489, 1509, 1530, 1551, 1572, 1593, 1614,
    1635, 1657, 1678, 1700, 1722, 1744, 1766, 1789, 1811, 1834, 1857, 1880,
    1903, 1926, 1950, 1974, 1997, 2021, 2045, 2070, 2094, 2119, 2144, 2168,
    2193, 2219, 2244, 2270, 2295, 2321, 2347, 2373, 2400, 2426, 2453, 2479,
    2506, 2534, 2561, 2588, 2616, 2644, 2671, 2700, 2728, 2756, 2785, 2813,
    2842, 2871, 2900, 2930, 2959, 2989, 3019, 3049, 3079, 3109, 3140, 3170,
    3201, 3232, 3263, 3295, 3326, 3358, 3390, 3421, 3454, 3486, 3518, 3551,
    3584, 3617, 3650, 3683, 3716, 3750, 3784, 3818, 3852, 3886, 3920, 3955,
    3990, 4025, 4060, 4095,
];

/// Linear ceiling of the general-purpose table.
pub const ILT_MAX: u32 = 2033;

/// Linear ceiling of the InSight table.
pub const NSYT_ILT_MAX: u32 = 4095;

/// Whether `instrument` belongs to the group served by the InSight table.
pub open spec fn uses_nsyt_table(instrument: Instrument) -> bool {
    instrument == Instrument::NsytICC || instrument == Instrument::NsytIDC
}

/// The general-purpose table as a sequence indexed by raw value.
#[verifier::opaque]
pub open spec fn ilt_entries() -> Seq<u32> {
    ILT@
}

/// The InSight table as a sequence indexed by raw value.
#[verifier::opaque]
pub open spec fn nsyt_ilt_entries() -> Seq<u32> {
    NSYT_ILT@
}

/// The table that governs `instrument`, indexed by raw value.
pub open spec fn ilt_of(instrument: Instrument) -> Seq<u32> {
    if uses_nsyt_table(instrument) {
        nsyt_ilt_entries()
    } else {
        ilt_entries()
    }
}

/// The linear ceiling of `instrument`: the last entry of its table.
pub open spec fn max_of(instrument: Instrument) -> u32 {
    if uses_nsyt_table(instrument) {
        NSYT_ILT_MAX
    } else {
        ILT_MAX
    }
}

/// A table starts at zero and never decreases.
pub open spec fn is_companding_table(t: Seq<u32>) -> bool {
    &&& t.len() == ILT_LEN
    &&& t[0] == 0
    &&& forall|i: int, j: int| 0 <= i <= j < t.len() ==> t[i] <= t[j]
}

/// Whether entry `k + 1` of `t` is not below entry `k`.
spec fn rises_at(t: Seq<u32>, k: int) -> bool {
    t[k] <= t[k + 1]
}

/// Whether entry `k + 1` of `t` is above entry `k`.
spec fn climbs_at(t: Seq<u32>, k: int) -> bool {
    t[k] < t[k + 1]
}

/// What the entries of the general-purpose table show one by one: its ends,
/// and that each entry is above the one before it, but for the two plateaus
/// (raw values 2 and 3, and 5 and 6).
proof fn lemma_ilt_entries()
    ensures
        ilt_entries().len() == 256,
        ilt_entries()[0] == 0,
        ilt_entries()[255] == ILT_MAX,
        forall|k: int| 0 <= k < 255 ==> #[trigger] rises_at(ilt_entries(), k),
        forall|k: int|
            0 <= k < 255 && k != 2 && k != 5 ==> #[trigger] climbs_at(ilt_entries(), k),
{
    reveal(ilt_entries);
}

/// What the entries of the InSight table show one by one: its ends, and that
/// each entry is above the one before it, but for the plateau at zero (raw
/// values 0 to 4) and three pairs (5 and 6, 7 and 8, 9 and 10).
proof fn lemma_nsyt_ilt_entries()
    ensures
        nsyt_ilt_entries().len() == 256,
        nsyt_ilt_entries()[0] == 0,
        nsyt_ilt_entries()[4] == 0,
        nsyt_ilt_entries()[255] == NSYT_ILT_MAX,
        forall|k: int| 0 <= k < 255 ==> #[trigger] rises_at(nsyt_ilt_entries(), k),
        forall|k: int|
            4 <= k < 255 && k != 5 && k != 7 && k != 9 ==> #[trigger] climbs_at(
                nsyt_ilt_entries(),
                k,
            ),
{
    reveal(nsyt_ilt_entries);
}

/// A sequence that rises from each entry to the next is in order throughout.
proof fn lemma_steps_give_order(t: Seq<u32>, i: int, j: int)
    requires
        forall|k: int| 0 <= k < t.len() - 1 ==> #[trigger] rises_at(t, k),
        0 <= i <= j < t.len(),
    ensures
        t[i] <= t[j],
    decreases j - i,
{
    if i < j {
        lemma_steps_give_order(t, i, j - 1);
        assert(rises_at(t, j - 1));
    }
}

/// A sequence of 256 entries that starts at zero and rises from each entry to
/// the next is a companding table.
proof fn lemma_rising_is_table(t: Seq<u32>)
    requires
        t.len() == 256,
        t[0] == 0,
        forall|k: int| 0 <= k < 255 ==> #[trigger] rises_at(t, k),
    ensures
        is_companding_table(t),
{
    assert forall|i: int, j: int| 0 <= i <= j < t.len() implies t[i] <= t[j] by {
        lemma_steps_give_order(t, i, j);
    }
}

/// Both tables start at zero, never decrease, and end at their ceiling:
/// 2033 for the general-purpose table, 4095 for the InSight table.
pub proof fn lemma_table_invariants()
    ensures
        is_companding_table(ilt_entries()),
        ilt_entries()[0] == 0,
        forall|i: int, j: int| 0 <= i <= j < 256 ==> ilt_entries()[i] <= ilt_entries()[j],
        ilt_entries()[255] == 2033,
        is_companding_table(nsyt_ilt_entries()),
        nsyt_ilt_entries()[0] == 0,
        forall|i: int, j: int|
            0 <= i <= j < 256 ==> nsyt_ilt_entries()[i] <= nsyt_ilt_entries()[j],
        nsyt_ilt_entries()[255] == 4095,
{
    lemma_ilt_entries();
    lemma_rising_is_table(ilt_entries());
    lemma_nsyt_ilt_entries();
    lemma_rising_is_table(nsyt_ilt_entries());
}

/// The table of every instrument starts at zero, never decreases, and ends at
/// the ceiling of the instrument: 4095 for the InSight cameras, 2033 for
/// every other instrument.
pub proof fn lemma_instrument_table(instrument: Instrument)
    ensures
        is_companding_table(ilt_of(instrument)),
        ilt_of(instrument)[0] == 0,
        forall|i: int, j: int|
            0 <= i <= j < 256 ==> ilt_of(instrument)[i] <= ilt_of(instrument)[j],
        ilt_of(instrument)[255] == max_of(instrument),
        max_of(instrument) == if uses_nsyt_table(instrument) {
            4095u32
        } else {
            2033u32
        },
{
    lemma_table_invariants();
}

/// Returns the table that governs `instrument`.
pub fn get_ilt_for_instrument(instrument: Instrument) -> (ilt: [u32; 256])
    ensures
        ilt@ == ilt_of(instrument),
{
    proof {
        reveal(ilt_entries);
        reveal(nsyt_ilt_entries);
    }
    match instrument {
        Instrument::NsytICC => NSYT_ILT,
        Instrument::NsytIDC => NSYT_ILT,
        _ => ILT,
    }
}

/// Returns the linear ceiling of `instrument`.
pub fn get_max_for_instrument(instrument: Instrument) -> (max: u32)
    ensures
        max == max_of(instrument),
        max == ilt_of(instrument)[255],
        uses_nsyt_table(instrument) ==> max == 4095,
        !uses_nsyt_table(instrument) ==> max == 2033,
{
    proof {
        lemma_instrument_table(instrument);
    }
    let ilt = get_ilt_for_instrument(instrument);
    ilt[255]
}

/// The linear value of raw value `raw` under table `t`.
pub open spec fn decompand_value(t: Seq<u32>, raw: u32) -> u32 {
    t[raw as int]
}

/// Whether every pixel of `buffer` is a companded 8-bit value.
pub open spec fn holds_raw_values(buffer: ImageBuffer) -> bool {
    forall|x: int, y: int| buffer.contains(x, y) ==> #[trigger] buffer.at(x, y) <= MAX_RAW_VALUE
}

/// Whether pixel `(x2, y2)` is visited before pixel `(x, y)` when the columns
/// are walked from left to right, each from the top down.
spec fn visited_before(x2: int, y2: int, x: int, y: int) -> bool {
    x2 < x || (x2 == x && y2 < y)
}

/// Replaces every pixel of `buffer`, a companded 8-bit value, by the linear
/// value that the table of `instrument` gives for it.
///
/// On success no pixel is above the ceiling of the table. Fails with
/// `InvalidRawValue` if and only if some pixel is above 255. The buffer is
/// then of no further use: each pixel holds either its old value or the
/// linear value of its old value.
pub fn decompand_buffer(buffer: &mut ImageBuffer, instrument: Instrument) -> (res: Result<
    (),
    Error,
>)
    ensures
        final(buffer).width() == old(buffer).width(),
        final(buffer).height() == old(buffer).height(),
        res is Ok <==> holds_raw_values(*old(buffer)),
        res is Ok ==> forall|x: int, y: int|
            #![trigger final(buffer).at(x, y)]
            old(buffer).contains(x, y) ==> final(buffer).at(x, y) == decompand_value(
                ilt_of(instrument),
                old(buffer).at(x, y),
            ),
        res is Ok ==> forall|x: int, y: int|
            #![trigger final(buffer).at(x, y)]
            old(buffer).contains(x, y) ==> final(buffer).at(x, y) <= max_of(instrument),
        res matches Err(e) ==> {
            &&& e == Error::InvalidRawValue
            &&& forall|x: int, y: int|
                #![trigger final(buffer).at(x, y)]
                old(buffer).contains(x, y) ==> {
                    ||| final(buffer).at(x, y) == old(buffer).at(x, y)
                    ||| old(buffer).at(x, y) <= MAX_RAW_VALUE && final(buffer).at(x, y)
                        == decompand_value(ilt_of(instrument), old(buffer).at(x, y))
                }
        },
{
    let ilt = get_ilt_for_instrument(instrument);
    let ghost before = *buffer;
    let width = buffer.width();
    let height = buffer.height();
    let mut x: usize = 0;
    while x < width
        invariant
            x <= width,
            before == *old(buffer),
            buffer.width() == width == before.width(),
            buffer.height() == height == before.height(),
            ilt@ == ilt_of(instrument),
            forall|x2: int, y2: int|
                #![trigger buffer.at(x2, y2)]
                #![trigger before.at(x2, y2)]
                before.contains(x2, y2) ==> if visited_before(x2, y2, x as int, 0) {
                    before.at(x2, y2) <= MAX_RAW_VALUE && buffer.at(x2, y2) == decompand_value(
                        ilt@,
                        before.at(x2, y2),
                    )
                } else {
                    buffer.at(x2, y2) == before.at(x2, y2)
                },
        decreases width - x,
    {
        let mut y: usize = 0;
        while y < height
            invariant
                x < width,
                y <= height,
                before == *old(buffer),
                buffer.width() == width == before.width(),
                buffer.height() == height == before.height(),
                ilt@ == ilt_of(instrument),
                forall|x2: int, y2: int|
                    #![trigger buffer.at(x2, y2)]
                    #![trigger before.at(x2, y2)]
                    before.contains(x2, y2) ==> if visited_before(x2, y2, x as int, y as int) {
                        before.at(x2, y2) <= MAX_RAW_VALUE && buffer.at(x2, y2)
                            == decompand_value(ilt@, before.at(x2, y2))
                    } else {
                        buffer.at(x2, y2) == before.at(x2, y2)
                    },
            decreases height - y,
        {
            let raw_value = buffer.get(x, y).unwrap();
            if raw_value > MAX_RAW_VALUE {
                assert(before.contains(x as int, y as int) && before.at(x as int, y as int)
                    > MAX_RAW_VALUE);
                return Err(Error::InvalidRawValue);
            }
            let ilt_value = ilt[raw_value as usize];
            buffer.put(x, y, ilt_value).unwrap();
            y += 1;
        }
        x += 1;
    }
    proof {
        lemma_instrument_table(instrument);
    }
    Ok(())
}

/// Whether table `t` resolves linear value `v` at raw value `i`: entry `i` is
/// `v` itself, or `v` lies strictly between entry `i - 1` and entry `i`.
pub open spec fn resolves_at(t: Seq<u32>, v: u32, i: int) -> bool {
    1 <= i < t.len() && (v == t[i] || (t[i - 1] < v && v < t[i]))
}

/// Whether `i` is the lowest raw value at which `t` resolves `v`.
pub open spec fn first_resolves_at(t: Seq<u32>, v: u32, i: int) -> bool {
    resolves_at(t, v, i) && forall|k: int| 1 <= k < i ==> !resolves_at(t, v, k)
}

/// The raw value that stands for linear value `v` under table `t`: zero for
/// zero, else the lowest raw value at which `t` resolves `v`, and zero if
/// there is none.
pub open spec fn compand_value(t: Seq<u32>, v: u32) -> int {
    if v != 0 && exists|i: int| first_resolves_at(t, v, i) {
        choose|i: int| first_resolves_at(t, v, i)
    } else {
        0
    }
}

/// Walks table `ilt` from raw value 1 upward and returns the first raw value
/// that resolves `ilt_value`, or zero when none does. Only called for a
/// non-zero `ilt_value`.
fn scan_ilt(ilt: &[u32; 256], ilt_value: u32) -> (lut_value: u32)
    requires
        ilt_value != 0,
    ensures
        lut_value == compand_value(ilt@, ilt_value),
        lut_value != 0 ==> first_resolves_at(ilt@, ilt_value, lut_value as int),
        lut_value == 0 ==> forall|k: int| !resolves_at(ilt@, ilt_value, k),
{
    let mut i: usize = 1;
    while i < ILT_LEN
        invariant
            ilt_value != 0,
            1 <= i <= ILT_LEN,
            forall|k: int| 1 <= k < i ==> !resolves_at(ilt@, ilt_value, k),
        decreases ILT_LEN - i,
    {
        if ilt_value == ilt[i] || (ilt_value < ilt[i] && ilt_value > ilt[i - 1]) {
            proof {
                lemma_first_resolving_is_unique(ilt@, ilt_value, i as int);
            }
            return i as u32;
        }
        i += 1;
    }
    0
}

/// At most one raw value is the lowest at which `t` resolves `v`.
proof fn lemma_first_resolving_is_unique(t: Seq<u32>, v: u32, i: int)
    requires
        first_resolves_at(t, v, i),
    ensures
        forall|j: int| first_resolves_at(t, v, j) ==> j == i,
        v != 0 ==> compand_value(t, v) == i,
{
    assert forall|j: int| first_resolves_at(t, v, j) implies j == i by {
        if j < i {
            assert(!resolves_at(t, v, j));
        } else if i < j {
            assert(!resolves_at(t, v, i));
        }
    }
}

/// Returns the raw 8-bit value that stands for linear value `ilt_value` under
/// the table of `instrument`.
///
/// Zero gives zero without a look at the table. A value up to the table's
/// ceiling gives the lowest raw value whose entry is not below it. A value
/// above the ceiling gives zero.
pub fn get_lut_value_from_ilt_value(ilt_value: u32, instrument: Instrument) -> (lut_value: u32)
    ensures
        lut_value == compand_value(ilt_of(instrument), ilt_value),
        lut_value <= MAX_RAW_VALUE,
        ilt_value == 0 || ilt_value > max_of(instrument) ==> lut_value == 0,
        0 < ilt_value <= max_of(instrument) ==> {
            &&& 1 <= lut_value
            &&& ilt_of(instrument)[lut_value - 1] < ilt_value
            &&& ilt_value <= ilt_of(instrument)[lut_value as int]
        },
{
    if ilt_value == 0 {
        return 0;
    }
    let ilt = get_ilt_for_instrument(instrument);
    let lut_value = scan_ilt(&ilt, ilt_value);
    proof {
        lemma_compand_value_brackets(instrument, ilt_value);
    }
    lut_value
}

/// Under the table of an instrument the raw value that stands for `v` is zero
/// when `v` is zero or above the ceiling, and else the one raw value whose
/// entry is not below `v` while the entry before it is.
pub proof fn lemma_compand_value_brackets(instrument: Instrument, v: u32)
    ensures
        0 <= compand_value(ilt_of(instrument), v) <= MAX_RAW_VALUE,
        v == 0 || v > max_of(instrument) ==> compand_value(ilt_of(instrument), v) == 0,
        0 < v <= max_of(instrument) ==> {
            let c = compand_value(ilt_of(instrument), v);
            &&& 1 <= c
            &&& ilt_of(instrument)[c - 1] < v <= ilt_of(instrument)[c]
        },
        forall|i: int|
            1 <= i < 256 && ilt_of(instrument)[i - 1] < v <= #[trigger] ilt_of(instrument)[i]
                ==> i == compand_value(ilt_of(instrument), v),
{
    let t = ilt_of(instrument);
    lemma_instrument_table(instrument);
    if v != 0 {
        if v > max_of(instrument) {
            assert forall|i: int| !first_resolves_at(t, v, i) by {
                if 1 <= i < 256 {
                    assert(t[i] <= t[255]);
                }
            }
        } else {
            let i = lemma_least_entry_not_below(t, v, 255);
            lemma_first_resolving_is_unique(t, v, i);
        }
    }
    assert forall|i: int| 1 <= i < 256 && t[i - 1] < v <= #[trigger] t[i] implies i
        == compand_value(t, v) by {
        assert(t[0] <= t[i - 1]);
        assert(t[i] <= t[255]);
        assert(resolves_at(t, v, i));
        assert forall|k: int| 1 <= k < i implies !resolves_at(t, v, k) by {
            assert(t[k] <= t[i - 1]);
        }
        lemma_first_resolving_is_unique(t, v, i);
    }
}

/// In a table, below an entry that is not below `v`, the lowest such entry
/// exists, and it is where the table first resolves `v`.
proof fn lemma_least_entry_not_below(t: Seq<u32>, v: u32, hi: int) -> (i: int)
    requires
        is_companding_table(t),
        0 < v <= t[hi],
        0 <= hi < 256,
    ensures
        1 <= i <= hi,
        t[i - 1] < v <= t[i],
        first_resolves_at(t, v, i),
    decreases hi,
{
    if t[hi - 1] < v {
        assert(resolves_at(t, v, hi));
        assert forall|k: int| 1 <= k < hi implies !resolves_at(t, v, k) by {
            assert(t[k] <= t[hi - 1]);
        }
        hi
    } else {
        lemma_least_entry_not_below(t, v, hi - 1)
    }
}

/// Companding the linear value of a raw value gives that raw value back,
/// unless the table holds the same entry at a lower raw value: then it gives
/// the lowest such raw value.
///
/// In the general-purpose table only raw values 3 and 6 repeat the entry
/// before them, and they come back as 2 and 5. In the InSight table raw
/// values 1 to 4 share the entry zero and come back as 0, and raw values 6, 8
/// and 10 come back as 5, 7 and 9. Every other raw value comes back as it is.
pub proof fn lemma_round_trip(instrument: Instrument, raw: u32)
    requires
        raw <= MAX_RAW_VALUE,
    ensures
        ({
            let t = ilt_of(instrument);
            let c = compand_value(t, decompand_value(t, raw));
            &&& 0 <= c <= raw
            &&& t[c] == t[raw as int]
            &&& forall|k: int| 0 <= k < c ==> #[trigger] t[k] < t[raw as int]
            &&& !uses_nsyt_table(instrument) ==> {
                ||| c == raw
                ||| (raw == 3 || raw == 6) && c == raw - 1
            }
            &&& uses_nsyt_table(instrument) ==> {
                ||| c == raw
                ||| 1 <= raw <= 4 && c == 0
                ||| (raw == 6 || raw == 8 || raw == 10) && c == raw - 1
            }
        }),
{
    let t = ilt_of(instrument);
    let v = t[raw as int];
    let c = compand_value(t, v);
    lemma_instrument_table(instrument);
    lemma_compand_value_brackets(instrument, v);
    lemma_ilt_entries();
    lemma_nsyt_ilt_entries();
    assert(t[raw as int] <= t[255]);
    if v == 0 {
        if uses_nsyt_table(instrument) {
            if raw >= 5 {
                assert(climbs_at(t, 4));
                assert(t[5] <= t[raw as int]);
            }
        } else {
            if raw >= 1 {
                assert(climbs_at(t, 0));
                assert(t[1] <= t[raw as int]);
            }
        }
    } else {
        if c > raw {
            assert(t[raw as int] <= t[c - 1]);
        }
        assert(t[c] <= t[raw as int]);
        assert forall|k: int| 0 <= k < c implies #[trigger] t[k] < t[raw as int] by {
            assert(t[k] <= t[c - 1]);
        }
        if uses_nsyt_table(instrument) {
            assert(t[0] <= t[4]);
        }
        if c < raw {
            assert(t[c] <= t[raw - 1]);
            assert(!climbs_at(t, raw - 1));
            if c < raw - 1 {
                assert(t[c] <= t[raw - 2]);
                assert(!climbs_at(t, raw - 2));
            }
        }
    }
}

/// Zero stands for zero under every table.
pub proof fn lemma_zero_compands_to_zero(t: Seq<u32>)
    ensures
        compand_value(t, 0) == 0,
{
}

/// Replaces every pixel of `buffer`, a linear value, by the raw 8-bit value
/// that stands for it under the table of `instrument`. Never fails: a value
/// that the table does not resolve becomes zero.
pub fn compand_buffer(buffer: &mut ImageBuffer, instrument: Instrument)
    ensures
        final(buffer).width() == old(buffer).width(),
        final(buffer).height() == old(buffer).height(),
        forall|x: int, y: int|
            #![trigger final(buffer).at(x, y)]
            old(buffer).contains(x, y) ==> final(buffer).at(x, y) == compand_value(
                ilt_of(instrument),
                old(buffer).at(x, y),
            ),
        forall|x: int, y: int|
            #![trigger final(buffer).at(x, y)]
            old(buffer).contains(x, y) ==> final(buffer).at(x, y) <= MAX_RAW_VALUE,
        forall|x: int, y: int|
            #![trigger final(buffer).at(x, y)]
            old(buffer).contains(x, y) && old(buffer).at(x, y) == 0 ==> final(buffer).at(x, y)
                == 0,
{
    let ghost before = *buffer;
    let width = buffer.width();
    let height = buffer.height();
    let mut x: usize = 0;
    while x < width
        invariant
            x <= width,
            before == *old(buffer),
            buffer.width() == width == before.width(),
            buffer.height() == height == before.height(),
            forall|x2: int, y2: int|
                #![trigger buffer.at(x2, y2)]
                before.contains(x2, y2) ==> if visited_before(x2, y2, x as int, 0) {
                    buffer.at(x2, y2) <= MAX_RAW_VALUE && buffer.at(x2, y2) == compand_value(
                        ilt_of(instrument),
                        before.at(x2, y2),
                    )
                } else {
                    buffer.at(x2, y2) == before.at(x2, y2)
                },
        decreases width - x,
    {
        let mut y: usize = 0;
        while y < height
            invariant
                x < width,
                y <= height,
                before == *old(buffer),
                buffer.width() == width == before.width(),
                buffer.height() == height == before.height(),
                forall|x2: int, y2: int|
                    #![trigger buffer.at(x2, y2)]
                    before.contains(x2, y2) ==> if visited_before(x2, y2, x as int, y as int) {
                        buffer.at(x2, y2) <= MAX_RAW_VALUE && buffer.at(x2, y2) == compand_value(
                            ilt_of(instrument),
                            before.at(x2, y2),
                        )
                    } else {
                        buffer.at(x2, y2) == before.at(x2, y2)
                    },
            decreases height - y,
        {
            let ilt_value = buffer.get(x, y).unwrap();
            let lut_value = get_lut_value_from_ilt_value(ilt_value, instrument);
            buffer.put(x, y, lut_value).unwrap();
            y += 1;
        }
        x += 1;
    }
}

} // verus!
