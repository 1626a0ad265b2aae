//! Integer mathematics.

use vstd::prelude::*;

verus! {

/// The number of bits of a number.
pub open spec fn bit_length(n: int) -> nat
    decreases n,
{
    if n <= 0 {
        0
    } else {
        1 + bit_length(n / 2)
    }
}

/// Two to the power `k`.
pub open spec fn power2(k: nat) -> int
    decreases k,
{
    if k == 0 {
        1
    } else {
        2 * power2((k - 1) as nat)
    }
}

/// `n` as a multiple of `unit`: the nearest one, of two the even one.
pub open spec fn nearest_multiple(n: int, unit: int) -> int {
    let q = n / unit;
    let r = n % unit;
    (if 2 * r > unit || (2 * r == unit && q % 2 == 1) {
        q + 1
    } else {
        q
    }) * unit
}

/// The single precision number nearest to the whole number `n`, which has a mantissa of 24 bits.
pub open spec fn nearest_single(n: int) -> int {
    if bit_length(n) <= 24 {
        n
    } else {
        nearest_multiple(n, power2((bit_length(n) - 24) as nat))
    }
}

/// `root` is the whole part of the square root of `n`.
pub open spec fn is_floor_root(n: int, root: int) -> bool {
    0 <= root && root * root <= n < (root + 1) * (root + 1)
}

/// The square root of `n`, whose whole part is `root`, is so close to the next whole number that
/// the nearest single precision number is that one. The single precision numbers next to the
/// square root are `2^(bit_length(root) - 24)` apart.
pub open spec fn root_rounds_up(n: int, root: int) -> bool {
    let scale = power2((25 - bit_length(root)) as nat);
    n * scale * scale > ((root + 1) * scale - 1) * ((root + 1) * scale - 1)
}

/// `root` is the whole part of the single precision square root of `n`.
pub open spec fn is_single_root(n: int, root: int) -> bool {
    exists|floor: int| #[trigger]
        is_floor_root(nearest_single(n), floor) && root == (if root_rounds_up(
            nearest_single(n),
            floor,
        ) {
            floor + 1
        } else {
            floor
        })
}

/// The least number of rows of length `side` that hold `count` elements.
pub open spec fn rows_for(count: int, side: int) -> int {
    (count + side - 1) / side
}

/// The number of places that `rows_for(count, side)` rows leave unused.
pub open spec fn unused(count: int, side: int) -> int {
    side * rows_for(count, side) - count
}

/// `side` is the longest side up to `start` that leaves at most `max_unused` places unused.
pub open spec fn is_longest_side(count: int, max_unused: int, start: int, side: int) -> bool {
    &&& 1 <= side <= start
    &&& unused(count, side) <= max_unused
    &&& forall|s: int| side < s <= start ==> #[trigger] unused(count, s) > max_unused
}

/// `x` by `y` is the grid for `count` elements: one row where that is not too long, and otherwise
/// rows of the longest side, up to the square root, that leaves at most `max_unused` places unused.
pub open spec fn is_grid(
    count: int,
    max_unused: int,
    max_side_length: int,
    x: int,
    y: int,
) -> bool {
    if count <= max_side_length {
        x == count && y == 1
    } else {
        &&& exists|start: int| #[trigger]
            is_single_root(count, start) && is_longest_side(count, max_unused, start, x)
        &&& y == rows_for(count, x)
    }
}

proof fn bit_length_bounds(n: int, k: nat)
    requires
        0 <= n < power2(k),
    ensures
        bit_length(n) <= k,
        n > 0 ==> power2((bit_length(n) - 1) as nat) <= n < power2(bit_length(n)),
    decreases k,
{
    if n > 0 {
        bit_length_bounds(n / 2, (k - 1) as nat);
        if n / 2 > 0 {
            assert(power2((bit_length(n) - 1) as nat) == 2 * power2((bit_length(n / 2) - 1) as nat));
        } else {
            assert(bit_length(n / 2) == 0);
            assert(power2(0) == 1);
        }
        assert(power2(bit_length(n)) == 2 * power2(bit_length(n / 2)));
    }
}

proof fn power2_values()
    ensures
        power2(0) == 1,
        power2(1) == 2,
        power2(2) == 4,
        power2(4) == 16,
        power2(8) == 256,
        power2(16) == 65536,
        power2(17) == 131072,
        power2(24) == 0x100_0000,
        power2(25) == 0x200_0000,
        power2(32) == 0x1_0000_0000,
        power2(33) == 0x2_0000_0000,
{
    reveal_with_fuel(power2, 10);
    assert(power2(8) == 256);
    assert(power2(16) == 65536);
    assert(power2(24) == 0x100_0000);
    assert(power2(32) == 0x1_0000_0000);
}

proof fn power2_sum(a: nat, b: nat)
    ensures
        power2(a + b) == power2(a) * power2(b),
        power2(a) > 0,
    decreases a,
{
    if a > 0 {
        power2_sum((a - 1) as nat, b);
        assert(power2(a + b) == 2 * power2((a - 1) as nat + b));
        assert(2 * (power2((a - 1) as nat) * power2(b)) == (2 * power2((a - 1) as nat)) * power2(b))
            by (nonlinear_arith);
    } else {
        assert(power2(0) * power2(b) == power2(b)) by (nonlinear_arith)
            requires
                power2(0) == 1,
        ;
    }
}

/// The number of bits of a number.
fn count_bits(n: u64) -> (bits: u32)
    requires
        n < 0x2_0000_0000,
    ensures
        bits == bit_length(n as int),
        bits <= 33,
{
    let mut rest: u64 = n;
    let mut bits: u32 = 0;
    proof {
        power2_values();
        bit_length_bounds(n as int, 33);
    }
    while rest > 0
        invariant
            bits + bit_length(rest as int) == bit_length(n as int),
            bit_length(n as int) <= 33,
        decreases rest,
    {
        rest = rest / 2;
        bits += 1;
    }
    bits
}

/// Two to the power `k`.
fn two_to(k: u32) -> (p: u64)
    requires
        k <= 32,
    ensures
        p == power2(k as nat),
        0 < p <= 0x1_0000_0000,
{
    let mut p: u64 = 1;
    let mut i: u32 = 0;
    while i < k
        invariant
            i <= k <= 32,
            p == power2(i as nat),
            0 < p <= 0x1_0000_0000,
        decreases k - i,
    {
        proof {
            power2_values();
            power2_grows((i + 1) as nat, 32);
        }
        p = 2 * p;
        i += 1;
    }
    p
}

proof fn power2_grows(a: nat, b: nat)
    requires
        a <= b,
    ensures
        power2(a) <= power2(b),
        power2(a) > 0,
    decreases b,
{
    if a < b {
        power2_grows(a, (b - 1) as nat);
    } else {
        power2_sum(a, 0);
    }
}

fn round_to_single(n: u32) -> (rounded: u64)
    ensures
        rounded == nearest_single(n as int),
        rounded <= 0x1_0000_0000,
        n > 0 ==> rounded > 0,
{
    let bits: u32 = count_bits(n as u64);
    proof {
        power2_values();
        bit_length_bounds(n as int, 32);
    }
    if bits <= 24 {
        return n as u64;
    }
    let unit: u64 = two_to(bits - 24);
    let q: u64 = n as u64 / unit;
    let r: u64 = n as u64 % unit;
    proof {
        let k = (bits - 24) as nat;
        power2_sum(24, k);
        power2_sum(23, k);
        power2_grows(bits as nat, 32);
        power2_grows(k, 8);
        assert(power2(24) == 2 * power2(23));
        assert(n == q * unit + r) by {
            vstd::arithmetic::div_mod::lemma_fundamental_div_mod(n as int, unit as int);
            assert(unit * q == q * unit) by (nonlinear_arith);
        }
        assert(q < 0x100_0000) by (nonlinear_arith)
            requires
                q * unit <= n,
                n < 0x100_0000 * unit,
                unit > 0,
        ;
        assert((q + 1) * unit <= 0x100_0000 * unit) by (nonlinear_arith)
            requires
                q + 1 <= 0x100_0000,
                unit > 0,
        ;
        assert(0x100_0000 * unit <= 0x1_0000_0000);
        assert(q * unit <= (q + 1) * unit) by (nonlinear_arith)
            requires
                unit > 0,
        ;
        assert(q >= 1) by (nonlinear_arith)
            requires
                n == q * unit + r,
                r < unit,
                unit <= n,
        ;
        assert(q * unit >= unit) by (nonlinear_arith)
            requires
                q >= 1,
                unit > 0,
        ;
    }
    if 2 * r > unit || (2 * r == unit && q % 2 == 1) {
        (q + 1) * unit
    } else {
        q * unit
    }
}

fn floor_root(n: u64) -> (root: u64)
    requires
        n <= 0x1_0000_0000,
    ensures
        is_floor_root(n as int, root as int),
        root <= 0x1_0000,
{
    let mut low: u64 = 0;
    let mut high: u64 = 0x1_0001;
    while high - low > 1
        invariant
            low < high <= 0x1_0001,
            low * low <= n < high * high,
            n <= 0x1_0000_0000,
        decreases high - low,
    {
        let mid: u64 = low + (high - low) / 2;
        assert(mid * mid <= 0x1_0001 * 0x1_0001) by (nonlinear_arith)
            requires
                mid <= 0x1_0001,
        ;
        if mid * mid <= n {
            low = mid;
        } else {
            high = mid;
        }
    }
    assert(high == low + 1);
    low
}

/// The whole part of the single precision square root of a number.
pub fn single_root(n: u32) -> (root: u32)
    ensures
        is_single_root(n as int, root as int),
        root <= 0x1_0001,
        n > 0 ==> root > 0,
{
    let rounded: u64 = round_to_single(n);
    let floor: u64 = floor_root(rounded);
    let bits: u32 = count_bits(floor);
    proof {
        power2_values();
        bit_length_bounds(floor as int, 17);
        if n > 0 {
            assert(floor > 0) by (nonlinear_arith)
                requires
                    rounded > 0,
                    rounded < (floor + 1) * (floor + 1),
            ;
        }
    }
    let scale: u64 = two_to(25 - bits);
    proof {
        // floor < 2^bits, so (floor + 1) * scale <= 2^25 and the squares stay below 2^51.
        power2_sum(bits as nat, (25 - bits) as nat);
        assert(floor < power2(bits as nat));
        assert((floor + 1) * scale <= 0x200_0000) by (nonlinear_arith)
            requires
                floor + 1 <= power2(bits as nat),
                power2(bits as nat) * scale == 0x200_0000,
                scale > 0,
        ;
        assert(rounded * scale * scale < ((floor + 1) * scale) * ((floor + 1) * scale))
            by (nonlinear_arith)
            requires
                rounded < (floor + 1) * (floor + 1),
                scale > 0,
        ;
        assert(((floor + 1) * scale) * ((floor + 1) * scale) <= 0x200_0000 * 0x200_0000)
            by (nonlinear_arith)
            requires
                0 <= (floor + 1) * scale <= 0x200_0000,
        ;
        assert(rounded * scale <= rounded * scale * scale) by (nonlinear_arith)
            requires
                scale >= 1,
                rounded >= 0,
        ;
        assert((floor + 1) * scale >= 1) by (nonlinear_arith)
            requires
                scale >= 1,
                floor >= 0,
        ;
    }
    let bound: u64 = (floor + 1) * scale - 1;
    assert(bound * bound <= 0x200_0000 * 0x200_0000) by (nonlinear_arith)
        requires
            0 <= bound <= 0x200_0000,
    ;
    let root: u64 = if rounded * scale * scale > bound * bound {
        floor + 1
    } else {
        floor
    };
    assert(is_floor_root(nearest_single(n as int), floor as int));
    root as u32
}

/// Finds a 2D grid size for a given count of elements, with a maximum number of unused elements;
/// nothing where the count is too large for a grid of that side length.
pub fn grid_size_for_count(count: u32, max_unused: u32, max_side_length: u32) -> (size: Option<
    (u32, u32),
>)
    requires
        count > max_side_length ==> max_side_length * max_side_length <= u32::MAX,
        count > max_side_length ==> max_unused <= i32::MAX,
    ensures
        match size {
            None => count > max_side_length && count >= max_side_length * max_side_length,
            Some((x, y)) => {
                &&& count <= max_side_length || count < max_side_length * max_side_length
                &&& is_grid(
                    count as int,
                    max_unused as int,
                    max_side_length as int,
                    x as int,
                    y as int,
                )
            },
        },
        size matches Some((x, y)) ==> count <= x * y <= count + max_unused,
{
    if count <= max_side_length {
        assert(count * 1 == count);
        return Some((count, 1));
    }
    if count >= max_side_length * max_side_length {
        return None;
    }
    assert(max_side_length <= 0xffff) by (nonlinear_arith)
        requires
            max_side_length * max_side_length <= u32::MAX,
    ;
    assert(count < 0xffff * 0xffff) by (nonlinear_arith)
        requires
            count < max_side_length * max_side_length,
            max_side_length <= 0xffff,
    ;
    let start: u32 = single_root(count);
    let mut root: u32 = start;
    let mut rows: u32 = div_ceil(count, root);
    while root * rows - count > max_unused
        invariant
            1 <= root <= start <= 0x1_0001,
            1 <= count < 0xffff * 0xffff,
            rows == rows_for(count as int, root as int),
            count <= root * rows < count + root,
            forall|s: int|
                root < s <= start ==> #[trigger] unused(count as int, s) > max_unused,
        decreases root,
    {
        if root == 1 {
            assert(rows == count);
            assert(root * rows == count);
        }
        assert(unused(count as int, root as int) > max_unused);
        root = root - 1;
        rows = div_ceil(count, root);
    }
    assert(unused(count as int, root as int) <= max_unused);
    Some((root, rows))
}

/// The least number of rows of length `side` that hold `count` elements.
pub fn div_ceil(count: u32, side: u32) -> (rows: u32)
    requires
        side > 0,
    ensures
        rows == rows_for(count as int, side as int),
        count <= side * rows < count + side,
{
    let q: u32 = count / side;
    let r: u32 = count % side;
    proof {
        vstd::arithmetic::div_mod::lemma_fundamental_div_mod(count as int, side as int);
        assert(q * 1 <= q * side) by (nonlinear_arith)
            requires
                side >= 1,
                q >= 0,
        ;
        assert(side * q == q * side) by (nonlinear_arith);
        assert(side * (q + 1) == (q + 1) * side) by (nonlinear_arith);
        if r == 0 {
            assert((count + side - 1) / side as int == q) by {
                vstd::arithmetic::div_mod::lemma_fundamental_div_mod_converse(
                    count + side - 1,
                    side as int,
                    q as int,
                    side - 1,
                );
            }
        } else {
            assert(side * (q + 1) == side * q + side) by (nonlinear_arith);
            assert((count + side - 1) / side as int == q + 1) by {
                vstd::arithmetic::div_mod::lemma_fundamental_div_mod_converse(
                    count + side - 1,
                    side as int,
                    q + 1,
                    r - 1,
                );
            }
            assert(side >= 2);
            assert(2 * q <= side * q) by (nonlinear_arith)
                requires
                    side >= 2,
                    q >= 0,
            ;
        }
    }
    if r == 0 {
        q
    } else {
        q + 1
    }
}

/// The grid sizes of all counts below `test_size`, with the number of elements that are left
/// unused.
pub fn grid_size_table(test_size: u32, max_unused: u32, max_side_length: u32) -> (table: Vec<
    (u32, u32, u32, i32),
>)
    requires
        max_side_length > 0,
        max_side_length * max_side_length <= u32::MAX,
        test_size <= max_side_length * max_side_length,
        max_unused <= i32::MAX,
    ensures
        test_size == 0 ==> table.len() == 0,
        test_size > 0 ==> table.len() == test_size - 1,
        forall|i: int|
            0 <= i < table.len() ==> {
                let (count, x, y, unused) = #[trigger] table@[i];
                &&& count == i + 1
                &&& is_grid(
                    count as int,
                    max_unused as int,
                    max_side_length as int,
                    x as int,
                    y as int,
                )
                &&& unused == x * y - count
                &&& 0 <= unused <= max_unused
            },
{
    let mut table: Vec<(u32, u32, u32, i32)> = Vec::new();
    let mut count: u32 = 1;
    while count < test_size
        invariant
            count >= 1,
            test_size > 0 ==> count <= test_size,
            test_size == 0 ==> count == 1,
            max_side_length > 0,
            max_side_length * max_side_length <= u32::MAX,
            test_size <= max_side_length * max_side_length,
            max_unused <= i32::MAX,
            table.len() == count - 1,
            forall|i: int|
                0 <= i < table.len() ==> {
                    let (count, x, y, unused) = #[trigger] table@[i];
                    &&& count == i + 1
                    &&& is_grid(
                        count as int,
                        max_unused as int,
                        max_side_length as int,
                        x as int,
                        y as int,
                    )
                    &&& unused == x * y - count
                    &&& 0 <= unused <= max_unused
                },
        decreases test_size - count,
    {
        match grid_size_for_count(count, max_unused, max_side_length) {
            Some((x, y)) => {
                let unused: i32 = (x as u64 * y as u64 - count as u64) as i32;
                table.push((count, x, y, unused));
            },
            None => {},
        }
        count += 1;
    }
    table
}

/// A number is rounded to a multiple of the unit that is at most half a unit away.
pub proof fn rounded_to_the_nearest(n: int, unit: int)
    requires
        0 <= n,
        0 < unit,
    ensures
        nearest_multiple(n, unit) % unit == 0,
        -unit <= 2 * (nearest_multiple(n, unit) - n) <= unit,
{
    let (q, r) = (n / unit, n % unit);
    assert(n == q * unit + r) by {
        vstd::arithmetic::div_mod::lemma_fundamental_div_mod(n, unit);
        assert(unit * q == q * unit) by (nonlinear_arith);
    }
    assert(0 <= r < unit) by {
        vstd::arithmetic::div_mod::lemma_mod_bound(n, unit);
    }
    assert((q + 1) * unit == q * unit + unit) by (nonlinear_arith);
    vstd::arithmetic::div_mod::lemma_mod_multiples_basic(q, unit);
    vstd::arithmetic::div_mod::lemma_mod_multiples_basic(q + 1, unit);
}

/// A grid holds all elements, wastes no row and leaves no more places unused than it may.
pub proof fn grids_hold_their_elements(
    count: int,
    max_unused: int,
    max_side_length: int,
    x: int,
    y: int,
)
    requires
        is_grid(count, max_unused, max_side_length, x, y),
        0 < count,
        0 <= max_unused,
    ensures
        count <= x * y <= count + max_unused,
        x * (y - 1) < count,
        count <= max_side_length ==> x == count && y == 1,
{
    if count > max_side_length {
        let (s, c) = (x, count + x - 1);
        assert(x >= 1);
        let q = c / s;
        assert(y == q);
        vstd::arithmetic::div_mod::lemma_fundamental_div_mod(c, s);
        vstd::arithmetic::div_mod::lemma_mod_bound(c, s);
        assert(s * q == c - c % s);
        assert(x * (y - 1) == x * y - x) by (nonlinear_arith);
    } else {
        assert(x * y == count) by (nonlinear_arith)
            requires
                x == count,
                y == 1,
        ;
        assert(x * (y - 1) == 0) by (nonlinear_arith)
            requires
                y == 1,
        ;
    }
}

/// No longer side, up to the square root, would do for the grid: it would leave too many places
/// unused. And the side itself is not longer than the square root, rounded up.
pub proof fn grids_are_as_square_as_can_be(
    count: int,
    max_unused: int,
    max_side_length: int,
    x: int,
    y: int,
    side: int,
    rows: int,
)
    requires
        is_grid(count, max_unused, max_side_length, x, y),
        0 <= max_side_length < count < 0x100_0000,
        x < side,
        side * side <= count,
        (rows - 1) * side < count <= rows * side,
    ensures
        rows * side - count > max_unused,
        (x - 1) * (x - 1) <= count,
{
    power2_values();
    bit_length_bounds(count, 24);
    assert(nearest_single(count) == count);
    let start = choose|start: int| #[trigger]
        is_single_root(count, start) && is_longest_side(count, max_unused, start, x);
    let floor = choose|floor: int| #[trigger]
        is_floor_root(nearest_single(count), floor) && start == (if root_rounds_up(
            nearest_single(count),
            floor,
        ) {
            floor + 1
        } else {
            floor
        });
    assert(side <= floor) by (nonlinear_arith)
        requires
            side * side <= count,
            count < (floor + 1) * (floor + 1),
            0 <= floor,
            0 < side,
    ;
    assert(unused(count, side) > max_unused);
    let q = rows_for(count, side);
    let c = count + side - 1;
    vstd::arithmetic::div_mod::lemma_fundamental_div_mod(c, side);
    vstd::arithmetic::div_mod::lemma_mod_bound(c, side);
    assert(side * q >= count && side * q < count + side);
    assert(q == rows) by (nonlinear_arith)
        requires
            side * q >= count,
            side * q < count + side,
            (rows - 1) * side < count,
            count <= rows * side,
            side > 0,
    ;
    assert(rows * side == side * q) by (nonlinear_arith)
        requires
            q == rows,
    ;
    assert((x - 1) * (x - 1) <= count) by (nonlinear_arith)
        requires
            1 <= x <= floor + 1,
            floor * floor <= count,
    ;
}

} // verus!
