//! Reductions by order over IEEE 754 binary numbers, which the library
//! holds by their bit patterns. A scan for the index of the largest or the
//! smallest entry only compares, so it can run on integer keys that order as
//! the numbers do; this module gives the keys and shows that the scan on the
//! keys reports the index that the scan on the numbers would.

use crate::cast::cast_value;
use crate::element::{lemma_wrap_in_range, Element};
use crate::laws::law_argmax_lowest_index;
use crate::naive::argmax::Argmax;
use crate::naive::argmin::Argmin;
use crate::naive::base::{reduction, scan};
use vstd::prelude::*;

verus! {

/// The bits of a single-precision number without its sign bit.
pub open spec fn single_magnitude(bits: u32) -> int {
    (bits as int) % 0x8000_0000
}

/// Whether the bits are not a number.
pub open spec fn single_is_nan(bits: u32) -> bool {
    single_magnitude(bits) > 0x7f80_0000
}

/// The place of a single-precision number among all of them: a number is greater
/// than another exactly if its place is greater. Both zeros share place zero.
pub open spec fn single_ordinal(bits: u32) -> int {
    if bits >= 0x8000_0000 {
        -single_magnitude(bits)
    } else {
        single_magnitude(bits)
    }
}

/// The comparison `a > b` of two single-precision numbers, which is false where
/// either is not a number.
pub open spec fn single_exceeds(a: u32, b: u32) -> bool {
    !single_is_nan(a) && !single_is_nan(b) && single_ordinal(a) > single_ordinal(b)
}

/// The bits of the lowest finite single-precision number, from which a scan for
/// the largest entry starts.
pub open spec fn single_lowest_finite() -> u32 {
    (0x8000_0000 + 0x7f7f_ffff) as u32
}

/// The bits of the highest finite single-precision number, from which a scan for
/// the smallest entry starts.
pub open spec fn single_highest_finite() -> u32 {
    0x7f7f_ffff as u32
}

/// The integer that stands for a single-precision number in a scan for the largest
/// entry: the number's place, but the lowest integer for what can never
/// replace a running maximum (what is not a number, and what does not exceed
/// the lowest finite number).
pub open spec fn single_argmax_key_of(bits: u32) -> i32 {
    if single_is_nan(bits) || single_ordinal(bits) <= -0x7f7f_ffff {
        i32::MIN
    } else {
        single_ordinal(bits) as i32
    }
}

/// The integer that stands for a single-precision number in a scan for the smallest
/// entry: the number's place, but the highest integer for what can never
/// replace a running minimum (what is not a number, and what is not below the
/// highest finite number).
pub open spec fn single_argmin_key_of(bits: u32) -> i32 {
    if single_is_nan(bits) || single_ordinal(bits) >= 0x7f7f_ffff {
        i32::MAX
    } else {
        single_ordinal(bits) as i32
    }
}

/// The key of a single-precision number, given by its bits, for `Argmax`.
pub fn single_argmax_key(bits: u32) -> (key: i32)
    ensures
        key == single_argmax_key_of(bits),
{
    let magnitude: u32 = bits % 0x8000_0000;
    if magnitude > 0x7f80_0000 {
        i32::MIN
    } else if bits >= 0x8000_0000 {
        if magnitude >= 0x7f7f_ffff {
            i32::MIN
        } else {
            -(magnitude as i32)
        }
    } else {
        magnitude as i32
    }
}

/// The key of a single-precision number, given by its bits, for `Argmin`.
pub fn single_argmin_key(bits: u32) -> (key: i32)
    ensures
        key == single_argmin_key_of(bits),
{
    let magnitude: u32 = bits % 0x8000_0000;
    if magnitude > 0x7f80_0000 {
        i32::MAX
    } else if bits >= 0x8000_0000 {
        -(magnitude as i32)
    } else if magnitude >= 0x7f7f_ffff {
        i32::MAX
    } else {
        magnitude as i32
    }
}

/// The keys for `Argmax` of a whole buffer of single-precision numbers.
pub fn single_argmax_keys(bits: &Vec<u32>) -> (keys: Vec<i32>)
    ensures
        keys@ == bits@.map_values(|b: u32| single_argmax_key_of(b)),
{
    let n = bits.len();
    let mut keys: Vec<i32> = Vec::new();
    let mut k: usize = 0;
    while k < n
        invariant
            k <= n,
            n == bits@.len(),
            keys@.len() == k,
            forall|j: int| 0 <= j < k ==> keys@[j] == single_argmax_key_of(bits@[j]),
        decreases n - k,
    {
        keys.push(single_argmax_key(bits[k]));
        k += 1;
    }
    assert(keys@ =~= bits@.map_values(|b: u32| single_argmax_key_of(b)));
    keys
}

/// The keys for `Argmin` of a whole buffer of single-precision numbers.
pub fn single_argmin_keys(bits: &Vec<u32>) -> (keys: Vec<i32>)
    ensures
        keys@ == bits@.map_values(|b: u32| single_argmin_key_of(b)),
{
    let n = bits.len();
    let mut keys: Vec<i32> = Vec::new();
    let mut k: usize = 0;
    while k < n
        invariant
            k <= n,
            n == bits@.len(),
            keys@.len() == k,
            forall|j: int| 0 <= j < k ==> keys@[j] == single_argmin_key_of(bits@[j]),
        decreases n - k,
    {
        keys.push(single_argmin_key(bits[k]));
        k += 1;
    }
    assert(keys@ =~= bits@.map_values(|b: u32| single_argmin_key_of(b)));
    keys
}

/// The scan for the largest entry as it runs on single-precision numbers
/// themselves: from the lowest finite number at index zero, an entry replaces
/// the running maximum exactly if it exceeds it.
pub open spec fn single_argmax_scan(row: Seq<u32>) -> (u32, u32)
    decreases row.len(),
{
    if row.len() == 0 {
        (single_lowest_finite(), 0u32)
    } else {
        let before = single_argmax_scan(row.drop_last());
        if single_exceeds(row.last(), before.0) {
            (row.last(), (row.len() - 1) as u32)
        } else {
            before
        }
    }
}

/// The scan for the smallest entry as it runs on single-precision numbers
/// themselves: from the highest finite number at index zero, an entry
/// replaces the running minimum exactly if the minimum exceeds it.
pub open spec fn single_argmin_scan(row: Seq<u32>) -> (u32, u32)
    decreases row.len(),
{
    if row.len() == 0 {
        (single_highest_finite(), 0u32)
    } else {
        let before = single_argmin_scan(row.drop_last());
        if single_exceeds(before.0, row.last()) {
            (row.last(), (row.len() - 1) as u32)
        } else {
            before
        }
    }
}

/// `Argmax` over the keys reports the index that the scan on the
/// single-precision numbers themselves reports.
pub proof fn law_single_argmax_by_keys(row: Seq<u32>)
    ensures
        reduction::<Argmax, i32>(row.map_values(|b: u32| single_argmax_key_of(b)))
            == single_argmax_scan(row).1,
        scan::<Argmax, i32>(row.map_values(|b: u32| single_argmax_key_of(b))).0
            == single_argmax_key_of(single_argmax_scan(row).0),
        !single_is_nan(single_argmax_scan(row).0),
        single_ordinal(single_argmax_scan(row).0) >= -0x7f7f_ffff,
    decreases row.len(),
{
    let keys = row.map_values(|b: u32| single_argmax_key_of(b));
    if row.len() > 0 {
        law_single_argmax_by_keys(row.drop_last());
        assert(keys.drop_last() =~= row.drop_last().map_values(
            |b: u32| single_argmax_key_of(b),
        ));
        assert(keys.last() == single_argmax_key_of(row.last()));
    }
}

/// `Argmin` over the keys reports the index that the scan on the
/// single-precision numbers themselves reports.
pub proof fn law_single_argmin_by_keys(row: Seq<u32>)
    ensures
        reduction::<Argmin, i32>(row.map_values(|b: u32| single_argmin_key_of(b)))
            == single_argmin_scan(row).1,
        scan::<Argmin, i32>(row.map_values(|b: u32| single_argmin_key_of(b))).0
            == single_argmin_key_of(single_argmin_scan(row).0),
        !single_is_nan(single_argmin_scan(row).0),
        single_ordinal(single_argmin_scan(row).0) <= 0x7f7f_ffff,
    decreases row.len(),
{
    let keys = row.map_values(|b: u32| single_argmin_key_of(b));
    if row.len() > 0 {
        law_single_argmin_by_keys(row.drop_last());
        assert(keys.drop_last() =~= row.drop_last().map_values(
            |b: u32| single_argmin_key_of(b),
        ));
        assert(keys.last() == single_argmin_key_of(row.last()));
    }
}

/// The bits of a double-precision number without its sign bit.
pub open spec fn double_magnitude(bits: u64) -> int {
    (bits as int) % 0x8000_0000_0000_0000
}

/// Whether the bits are not a number.
pub open spec fn double_is_nan(bits: u64) -> bool {
    double_magnitude(bits) > 0x7ff0_0000_0000_0000
}

/// The place of a double-precision number among all of them: a number is greater
/// than another exactly if its place is greater. Both zeros share place zero.
pub open spec fn double_ordinal(bits: u64) -> int {
    if bits >= 0x8000_0000_0000_0000 {
        -double_magnitude(bits)
    } else {
        double_magnitude(bits)
    }
}

/// The comparison `a > b` of two double-precision numbers, which is false where
/// either is not a number.
pub open spec fn double_exceeds(a: u64, b: u64) -> bool {
    !double_is_nan(a) && !double_is_nan(b) && double_ordinal(a) > double_ordinal(b)
}

/// The bits of the lowest finite double-precision number, from which a scan for
/// the largest entry starts.
pub open spec fn double_lowest_finite() -> u64 {
    (0x8000_0000_0000_0000 + 0x7fef_ffff_ffff_ffff) as u64
}

/// The bits of the highest finite double-precision number, from which a scan for
/// the smallest entry starts.
pub open spec fn double_highest_finite() -> u64 {
    0x7fef_ffff_ffff_ffff as u64
}

/// The integer that stands for a double-precision number in a scan for the largest
/// entry: the number's place, but the lowest integer for what can never
/// replace a running maximum (what is not a number, and what does not exceed
/// the lowest finite number).
pub open spec fn double_argmax_key_of(bits: u64) -> i64 {
    if double_is_nan(bits) || double_ordinal(bits) <= -0x7fef_ffff_ffff_ffff {
        i64::MIN
    } else {
        double_ordinal(bits) as i64
    }
}

/// The integer that stands for a double-precision number in a scan for the smallest
/// entry: the number's place, but the highest integer for what can never
/// replace a running minimum (what is not a number, and what is not below the
/// highest finite number).
pub open spec fn double_argmin_key_of(bits: u64) -> i64 {
    if double_is_nan(bits) || double_ordinal(bits) >= 0x7fef_ffff_ffff_ffff {
        i64::MAX
    } else {
        double_ordinal(bits) as i64
    }
}

/// The key of a double-precision number, given by its bits, for `Argmax`.
pub fn double_argmax_key(bits: u64) -> (key: i64)
    ensures
        key == double_argmax_key_of(bits),
{
    let magnitude: u64 = bits % 0x8000_0000_0000_0000;
    if magnitude > 0x7ff0_0000_0000_0000 {
        i64::MIN
    } else if bits >= 0x8000_0000_0000_0000 {
        if magnitude >= 0x7fef_ffff_ffff_ffff {
            i64::MIN
        } else {
            -(magnitude as i64)
        }
    } else {
        magnitude as i64
    }
}

/// The key of a double-precision number, given by its bits, for `Argmin`.
pub fn double_argmin_key(bits: u64) -> (key: i64)
    ensures
        key == double_argmin_key_of(bits),
{
    let magnitude: u64 = bits % 0x8000_0000_0000_0000;
    if magnitude > 0x7ff0_0000_0000_0000 {
        i64::MAX
    } else if bits >= 0x8000_0000_0000_0000 {
        -(magnitude as i64)
    } else if magnitude >= 0x7fef_ffff_ffff_ffff {
        i64::MAX
    } else {
        magnitude as i64
    }
}

/// The keys for `Argmax` of a whole buffer of double-precision numbers.
pub fn double_argmax_keys(bits: &Vec<u64>) -> (keys: Vec<i64>)
    ensures
        keys@ == bits@.map_values(|b: u64| double_argmax_key_of(b)),
{
    let n = bits.len();
    let mut keys: Vec<i64> = Vec::new();
    let mut k: usize = 0;
    while k < n
        invariant
            k <= n,
            n == bits@.len(),
            keys@.len() == k,
            forall|j: int| 0 <= j < k ==> keys@[j] == double_argmax_key_of(bits@[j]),
        decreases n - k,
    {
        keys.push(double_argmax_key(bits[k]));
        k += 1;
    }
    assert(keys@ =~= bits@.map_values(|b: u64| double_argmax_key_of(b)));
    keys
}

/// The keys for `Argmin` of a whole buffer of double-precision numbers.
pub fn double_argmin_keys(bits: &Vec<u64>) -> (keys: Vec<i64>)
    ensures
        keys@ == bits@.map_values(|b: u64| double_argmin_key_of(b)),
{
    let n = bits.len();
    let mut keys: Vec<i64> = Vec::new();
    let mut k: usize = 0;
    while k < n
        invariant
            k <= n,
            n == bits@.len(),
            keys@.len() == k,
            forall|j: int| 0 <= j < k ==> keys@[j] == double_argmin_key_of(bits@[j]),
        decreases n - k,
    {
        keys.push(double_argmin_key(bits[k]));
        k += 1;
    }
    assert(keys@ =~= bits@.map_values(|b: u64| double_argmin_key_of(b)));
    keys
}

/// The scan for the largest entry as it runs on double-precision numbers
/// themselves: from the lowest finite number at index zero, an entry replaces
/// the running maximum exactly if it exceeds it.
pub open spec fn double_argmax_scan(row: Seq<u64>) -> (u64, u32)
    decreases row.len(),
{
    if row.len() == 0 {
        (double_lowest_finite(), 0u32)
    } else {
        let before = double_argmax_scan(row.drop_last());
        if double_exceeds(row.last(), before.0) {
            (row.last(), (row.len() - 1) as u32)
        } else {
            before
        }
    }
}

/// The scan for the smallest entry as it runs on double-precision numbers
/// themselves: from the highest finite number at index zero, an entry
/// replaces the running minimum exactly if the minimum exceeds it.
pub open spec fn double_argmin_scan(row: Seq<u64>) -> (u64, u32)
    decreases row.len(),
{
    if row.len() == 0 {
        (double_highest_finite(), 0u32)
    } else {
        let before = double_argmin_scan(row.drop_last());
        if double_exceeds(before.0, row.last()) {
            (row.last(), (row.len() - 1) as u32)
        } else {
            before
        }
    }
}

/// `Argmax` over the keys reports the index that the scan on the
/// double-precision numbers themselves reports.
pub proof fn law_double_argmax_by_keys(row: Seq<u64>)
    ensures
        reduction::<Argmax, i64>(row.map_values(|b: u64| double_argmax_key_of(b)))
            == double_argmax_scan(row).1,
        scan::<Argmax, i64>(row.map_values(|b: u64| double_argmax_key_of(b))).0
            == double_argmax_key_of(double_argmax_scan(row).0),
        !double_is_nan(double_argmax_scan(row).0),
        double_ordinal(double_argmax_scan(row).0) >= -0x7fef_ffff_ffff_ffff,
    decreases row.len(),
{
    let keys = row.map_values(|b: u64| double_argmax_key_of(b));
    if row.len() > 0 {
        law_double_argmax_by_keys(row.drop_last());
        assert(keys.drop_last() =~= row.drop_last().map_values(
            |b: u64| double_argmax_key_of(b),
        ));
        assert(keys.last() == double_argmax_key_of(row.last()));
    }
}

/// `Argmin` over the keys reports the index that the scan on the
/// double-precision numbers themselves reports.
pub proof fn law_double_argmin_by_keys(row: Seq<u64>)
    ensures
        reduction::<Argmin, i64>(row.map_values(|b: u64| double_argmin_key_of(b)))
            == double_argmin_scan(row).1,
        scan::<Argmin, i64>(row.map_values(|b: u64| double_argmin_key_of(b))).0
            == double_argmin_key_of(double_argmin_scan(row).0),
        !double_is_nan(double_argmin_scan(row).0),
        double_ordinal(double_argmin_scan(row).0) <= 0x7fef_ffff_ffff_ffff,
    decreases row.len(),
{
    let keys = row.map_values(|b: u64| double_argmin_key_of(b));
    if row.len() > 0 {
        law_double_argmin_by_keys(row.drop_last());
        assert(keys.drop_last() =~= row.drop_last().map_values(
            |b: u64| double_argmin_key_of(b),
        ));
        assert(keys.last() == double_argmin_key_of(row.last()));
    }
}

/// `Argmax` ties on single-precision numbers: where some entry exceeds the lowest
/// finite number, the reported index is the lowest index of the largest
/// entry. No entry exceeds the entry there, and every earlier entry is below
/// it or is not a number.
pub proof fn law_single_argmax_lowest_index(row: Seq<u32>)
    requires
        row.len() <= 0x1_0000_0000,
        exists|j: int| 0 <= j < row.len() && single_exceeds(row[j], single_lowest_finite()),
    ensures
        ({
            let index = reduction::<Argmax, i32>(
                row.map_values(|b: u32| single_argmax_key_of(b)),
            );
            &&& 0 <= index < row.len()
            &&& !single_is_nan(row[index])
            &&& forall|j: int| 0 <= j < row.len() ==> !single_exceeds(row[j], row[index])
            &&& forall|j: int|
                0 <= j < index ==> single_is_nan(row[j]) || single_exceeds(row[index], row[j])
        }),
{
    let keys = row.map_values(|b: u32| single_argmax_key_of(b));
    let witness = choose|j: int| 0 <= j < row.len() && single_exceeds(row[j], single_lowest_finite());
    law_argmax_lowest_index::<i32>(keys);
    let index = reduction::<Argmax, i32>(keys);
    assert(keys[witness] == single_argmax_key_of(row[witness]));
    assert(keys[index] == single_argmax_key_of(row[index]));
    assert(keys[witness] > i32::MIN);
    assert forall|j: int| 0 <= j < row.len() implies !single_exceeds(row[j], row[index]) by {
        assert(keys[j] == single_argmax_key_of(row[j]));
    }
    assert forall|j: int| 0 <= j < index implies single_is_nan(row[j]) || single_exceeds(
        row[index],
        row[j],
    ) by {
        assert(keys[j] == single_argmax_key_of(row[j]));
    }
}

/// Casting the index of a scan on single-precision numbers: where the index is no
/// greater than the largest value of the output's element type, the output
/// stands for exactly that index.
pub proof fn law_single_argmax_cast_exact<EO: Element>(row: Seq<u32>)
    requires
        single_argmax_scan(row).1 <= EO::highest(),
    ensures
        cast_value::<EO>(
            reduction::<Argmax, i32>(row.map_values(|b: u32| single_argmax_key_of(b))),
        ) == single_argmax_scan(row).1,
{
    law_single_argmax_by_keys(row);
    EO::lemma_limits();
    lemma_wrap_in_range(single_argmax_scan(row).1 as int, EO::lowest(), EO::highest());
}

/// `Argmax` ties on double-precision numbers: where some entry exceeds the lowest
/// finite number, the reported index is the lowest index of the largest
/// entry. No entry exceeds the entry there, and every earlier entry is below
/// it or is not a number.
pub proof fn law_double_argmax_lowest_index(row: Seq<u64>)
    requires
        row.len() <= 0x1_0000_0000,
        exists|j: int| 0 <= j < row.len() && double_exceeds(row[j], double_lowest_finite()),
    ensures
        ({
            let index = reduction::<Argmax, i64>(
                row.map_values(|b: u64| double_argmax_key_of(b)),
            );
            &&& 0 <= index < row.len()
            &&& !double_is_nan(row[index])
            &&& forall|j: int| 0 <= j < row.len() ==> !double_exceeds(row[j], row[index])
            &&& forall|j: int|
                0 <= j < index ==> double_is_nan(row[j]) || double_exceeds(row[index], row[j])
        }),
{
    let keys = row.map_values(|b: u64| double_argmax_key_of(b));
    let witness = choose|j: int| 0 <= j < row.len() && double_exceeds(row[j], double_lowest_finite());
    law_argmax_lowest_index::<i64>(keys);
    let index = reduction::<Argmax, i64>(keys);
    assert(keys[witness] == double_argmax_key_of(row[witness]));
    assert(keys[index] == double_argmax_key_of(row[index]));
    assert(keys[witness] > i64::MIN);
    assert forall|j: int| 0 <= j < row.len() implies !double_exceeds(row[j], row[index]) by {
        assert(keys[j] == double_argmax_key_of(row[j]));
    }
    assert forall|j: int| 0 <= j < index implies double_is_nan(row[j]) || double_exceeds(
        row[index],
        row[j],
    ) by {
        assert(keys[j] == double_argmax_key_of(row[j]));
    }
}

/// Casting the index of a scan on double-precision numbers: where the index is no
/// greater than the largest value of the output's element type, the output
/// stands for exactly that index.
pub proof fn law_double_argmax_cast_exact<EO: Element>(row: Seq<u64>)
    requires
        double_argmax_scan(row).1 <= EO::highest(),
    ensures
        cast_value::<EO>(
            reduction::<Argmax, i64>(row.map_values(|b: u64| double_argmax_key_of(b))),
        ) == double_argmax_scan(row).1,
{
    law_double_argmax_by_keys(row);
    EO::lemma_limits();
    lemma_wrap_in_range(double_argmax_scan(row).1 as int, EO::lowest(), EO::highest());
}

} // verus!
