//! Places, sizes and hashes.
use crate::number::{decimal_of, hex_of, two_digits_of};
use crate::outside::digest::xxh3_hash;
use crate::text::{cat2, cat5, chars_of};
use vstd::prelude::*;

verus! {

/// `name` below the directory `base`, both Unix paths: with one separator between them,
/// unless `base` is empty or ends in one. A name that starts at the root stands alone.
pub open spec fn joined(base: Seq<char>, name: Seq<char>) -> Seq<char> {
    if name.len() > 0 && name[0] == '/' {
        name
    } else if base.len() == 0 || base.last() == '/' {
        base + name
    } else {
        base + "/"@ + name
    }
}

/// Puts `name` below the directory `base`.
pub fn join_path(base: &str, name: &str) -> (r: String)
    ensures
        r@ == joined(base@, name@),
{
    let b = chars_of(base);
    let n = chars_of(name);
    if n.len() > 0 && n[0] == '/' {
        name.to_owned()
    } else if b.len() == 0 || b[b.len() - 1] == '/' {
        cat2(base, name)
    } else {
        crate::text::cat3(base, "/", name)
    }
}

/// The program's own directory: `gmf` in a directory of the system, or in the directory
/// `fallback` at home where the system names none.
pub open spec fn own_dir_path(
    system_dir: Option<Seq<char>>,
    home_dir: Seq<char>,
    fallback: Seq<char>,
) -> Seq<char> {
    match system_dir {
        Some(dir) => joined(dir, "gmf"@),
        None => joined(joined(home_dir, fallback), "gmf"@),
    }
}

/// The program's own directory. Where neither directory is known there is none.
pub fn own_dir(system_dir: &Option<String>, home_dir: &Option<String>, fallback: &str) -> (r: String)
    requires
        system_dir is Some || home_dir is Some,
    ensures
        system_dir is Some ==> r@ == own_dir_path(Some(system_dir->0@), Seq::empty(), fallback@),
        system_dir is None ==> r@ == own_dir_path(None, home_dir->0@, fallback@),
{
    match system_dir {
        Some(dir) => join_path(dir.as_str(), "gmf"),
        None => match home_dir {
            Some(home) => {
                let base = join_path(home.as_str(), fallback);
                join_path(base.as_str(), "gmf")
            },
            None => String::new(),
        },
    }
}

/// The program's directory for configuration, with `.config` at home.
pub fn app_dir(config_dir: &Option<String>, home_dir: &Option<String>) -> (r: String)
    requires
        config_dir is Some || home_dir is Some,
    ensures
        config_dir is Some ==> r@ == own_dir_path(
            Some(config_dir->0@),
            Seq::empty(),
            ".config"@,
        ),
        config_dir is None ==> r@ == own_dir_path(None, home_dir->0@, ".config"@),
{
    own_dir(config_dir, home_dir, ".config")
}

/// The file with the configuration, in the program's own directory.
pub fn config_path(app_dir: &str) -> (r: String)
    ensures
        r@ == joined(app_dir@, "config.toml"@),
{
    join_path(app_dir, "config.toml")
}

/// The whole number nearest to `n / d`; of two equally near, the even one.
pub open spec fn nearest(n: nat, d: nat) -> nat
    recommends
        d > 0,
{
    let q = n / d;
    let r = n % d;
    if 2 * r < d || (2 * r == d && q % 2 == 0) {
        q
    } else {
        q + 1
    }
}

/// The distance between neighbouring numbers of fifty-three binary digits at `n`.
pub open spec fn spacing(n: nat) -> nat
    decreases n,
{
    if n < 0x20_0000_0000_0000 {
        1
    } else {
        2 * spacing(n / 2)
    }
}

/// `n` rounded to fifty-three binary digits.
pub open spec fn rounded(n: nat) -> nat {
    nearest(n, spacing(n)) * spacing(n)
}

/// Bytes in unit `unit`: bytes, then kilobytes and on to terabytes.
pub open spec fn unit_size(unit: nat) -> nat {
    if unit == 0 {
        1
    } else if unit == 1 {
        1024
    } else if unit == 2 {
        1048576
    } else if unit == 3 {
        1073741824
    } else {
        1099511627776
    }
}

/// The largest unit of which `n` bytes are one or more.
pub open spec fn unit_of(n: nat) -> nat {
    if n < 1024 {
        0
    } else if n < 1048576 {
        1
    } else if n < 1073741824 {
        2
    } else if n < 1099511627776 {
        3
    } else {
        4
    }
}

/// The name of a unit.
pub open spec fn unit_name(unit: nat) -> Seq<char> {
    if unit == 0 {
        "B"@
    } else if unit == 1 {
        "KB"@
    } else if unit == 2 {
        "MB"@
    } else if unit == 3 {
        "GB"@
    } else {
        "TB"@
    }
}

/// A size for people: in the largest unit of which it is one or more, to two decimals.
pub open spec fn size_text(size: nat) -> Seq<char> {
    let n = rounded(size);
    let unit = unit_of(n);
    let hundredths = nearest(n * 100, unit_size(unit));
    crate::number::decimal(hundredths / 100) + "."@ + crate::number::two_digits(hundredths % 100)
        + " "@ + unit_name(unit)
}

fn round_nearest(n: u128, d: u128) -> (r: u128)
    requires
        d > 0,
        n < 0x8000_0000_0000_0000_0000_0000_0000_0000,
        d < 0x8000_0000_0000_0000_0000_0000_0000_0000,
    ensures
        r == nearest(n as nat, d as nat),
{
    let q: u128 = n / d;
    let rest: u128 = n % d;
    assert(rest < d) by (nonlinear_arith)
        requires
            d > 0,
            rest == n % d,
    ;
    assert(q <= n) by (nonlinear_arith)
        requires
            d > 0,
            q == n / d,
    ;
    if 2 * rest < d || (2 * rest == d && q % 2 == 0) {
        q
    } else {
        q + 1
    }
}

fn spacing_of(n: u64) -> (r: u64)
    ensures
        r == spacing(n as nat),
        1 <= r <= 2048,
        n < 0x20_0000_0000_0000 * r,
    decreases n,
{
    if n < 0x20_0000_0000_0000 {
        1
    } else {
        let half: u64 = spacing_of(n / 2);
        assert(spacing(n as nat) == 2 * spacing((n / 2) as nat));
        proof {
            lemma_spacing_bound((n / 2) as nat, 0x8000_0000_0000_0000);
        }
        2 * half
    }
}

proof fn lemma_spacing_bound(n: nat, limit: nat)
    requires
        n < limit,
        limit == 0x20_0000_0000_0000 || limit == 0x40_0000_0000_0000 || limit
            == 0x80_0000_0000_0000 || limit == 0x100_0000_0000_0000 || limit
            == 0x200_0000_0000_0000 || limit == 0x400_0000_0000_0000 || limit
            == 0x800_0000_0000_0000 || limit == 0x1000_0000_0000_0000 || limit
            == 0x2000_0000_0000_0000 || limit == 0x4000_0000_0000_0000 || limit
            == 0x8000_0000_0000_0000,
    ensures
        spacing(n) * 0x20_0000_0000_0000 <= limit,
    decreases limit,
{
    if n >= 0x20_0000_0000_0000 {
        lemma_spacing_bound(n / 2, limit / 2);
    }
}

/// Writes a size for people.
pub fn format_size(size: u64) -> (r: String)
    ensures
        r@ == size_text(size as nat),
{
    let step: u64 = spacing_of(size);
    let n: u128 = round_nearest(size as u128, step as u128);
    proof {
        assert(size / step <= size) by (nonlinear_arith)
            requires
                step >= 1,
        ;
        assert(n <= 0x20_0000_0000_0000) by {
            lemma_quotient(size as int, step as int);
        }
        assert(n * step <= 0x20_0000_0000_0000 * 2048) by (nonlinear_arith)
            requires
                n <= 0x20_0000_0000_0000,
                step <= 2048,
        ;
    }
    let bytes: u128 = n * step as u128;
    let (unit, div): (u64, u128) = if bytes < 1024 {
        (0, 1)
    } else if bytes < 1048576 {
        (1, 1024)
    } else if bytes < 1073741824 {
        (2, 1048576)
    } else if bytes < 1099511627776 {
        (3, 1073741824)
    } else {
        (4, 1099511627776)
    };
    let hundredths: u128 = round_nearest(bytes * 100, div);
    proof {
        lemma_hundredths(bytes as nat, div as nat);
    }
    let whole = decimal_of((hundredths / 100) as u64);
    let part = two_digits_of((hundredths % 100) as u64);
    let name = if unit == 0 {
        "B"
    } else if unit == 1 {
        "KB"
    } else if unit == 2 {
        "MB"
    } else if unit == 3 {
        "GB"
    } else {
        "TB"
    };
    cat5(whole.as_str(), ".", part.as_str(), " ", name)
}

proof fn lemma_quotient(size: int, step: int)
    requires
        0 <= size < 0x20_0000_0000_0000 * step,
        step >= 1,
    ensures
        nearest(size as nat, step as nat) <= 0x20_0000_0000_0000,
{
    assert(size / step < 0x20_0000_0000_0000) by (nonlinear_arith)
        requires
            0 <= size < 0x20_0000_0000_0000 * step,
            step >= 1,
    ;
}

proof fn lemma_hundredths(bytes: nat, div: nat)
    requires
        bytes <= 0x20_0000_0000_0000 * 2048,
        div == unit_size(unit_of(bytes)),
    ensures
        nearest(bytes * 100, div) / 100 <= u64::MAX,
{
}

/// The XXH3 of a file's content in hexadecimal, without leading zeros.
pub fn calc_xxh3(content: &[u8]) -> (r: String)
    ensures
        r@ == crate::number::hex(crate::outside::digest::xxh3(content@) as nat),
{
    hex_of(xxh3_hash(content))
}

/// A name goes below a directory: the path starts with the directory and ends with the
/// name, with one separator more where the directory does not end in one; and a file below
/// a directory has the name that was put there.
pub proof fn law_joined_is_below(base: Seq<char>, name: Seq<char>)
    requires
        crate::path::is_plain(name),
    ensures
        joined(base, name).take(base.len() as int) == base,
        joined(base, name).skip(joined(base, name).len() - name.len()) == name,
        joined(base, name).len() == base.len() + name.len() + if base.len() == 0 || base.last()
            == '/' {
            0nat
        } else {
            1nat
        },
        base.len() > 0 ==> joined(base, name)[joined(base, name).len() - name.len() - 1] == '/',
        crate::path::file_name(joined(base, name)) == Some(name),
        base.len() == 0 ==> joined(base, name) == name,
{
    reveal_strlit("/");
    assert(name[0] != '/') by {
        assert(name.contains(name[0]));
    }
    let r = joined(base, name);
    assert(r.take(base.len() as int) =~= base);
    assert(r.skip(r.len() - name.len()) =~= name);
    if base.len() == 0 {
        assert(r =~= name);
        crate::path::law_last_part_is_the_file_name(base, name);
    } else if base.last() == '/' {
        assert(r =~= base.drop_last() + seq!['/'] + name);
        crate::path::law_last_part_is_the_file_name(base.drop_last(), name);
    } else {
        assert(r =~= base + seq!['/'] + name);
        crate::path::law_last_part_is_the_file_name(base, name);
    }
}

/// A name that starts at the root is a path of its own, whatever the directory.
pub proof fn law_rooted_name_stands_alone(base: Seq<char>, name: Seq<char>)
    requires
        name.len() > 0,
        name[0] == '/',
    ensures
        joined(base, name) == name,
{
}

proof fn lemma_gmf_is_plain()
    ensures
        crate::path::is_plain("gmf"@),
{
    reveal_strlit("gmf");
    if "gmf"@.contains('/') {
        let k = choose|k: int| 0 <= k < "gmf"@.len() && "gmf"@[k] == '/';
        assert("gmf"@[k] != '/');
    }
    assert("gmf"@.len() == 3);
}

/// The program's own directory is named after it, and lies in the directory that the system
/// names, or else at home.
pub proof fn law_own_dir_is_below(
    system_dir: Option<Seq<char>>,
    home_dir: Seq<char>,
    fallback: Seq<char>,
)
    requires
        crate::path::is_plain(fallback),
    ensures
        crate::path::file_name(own_dir_path(system_dir, home_dir, fallback)) == Some("gmf"@),
        system_dir matches Some(dir) ==> own_dir_path(system_dir, home_dir, fallback).take(
            dir.len() as int,
        ) == dir,
        system_dir is None ==> own_dir_path(system_dir, home_dir, fallback).take(
            joined(home_dir, fallback).len() as int,
        ) == joined(home_dir, fallback),
{
    lemma_gmf_is_plain();
    match system_dir {
        Some(dir) => {
            law_joined_is_below(dir, "gmf"@);
        },
        None => {
            law_joined_is_below(joined(home_dir, fallback), "gmf"@);
        },
    }
}

/// The nearest whole number is off by a half at most, and of two equally near it is the
/// even one.
pub proof fn law_nearest_is_nearest(n: nat, d: nat)
    requires
        d > 0,
    ensures
        -(d as int) <= 2 * (n - nearest(n, d) * d) <= d,
        2 * (n - nearest(n, d) * d) == d || 2 * (n - nearest(n, d) * d) == -(d as int)
            ==> nearest(n, d) % 2 == 0,
{
    vstd::arithmetic::div_mod::lemma_fundamental_div_mod(n as int, d as int);
    vstd::arithmetic::div_mod::lemma_mod_bound(n as int, d as int);
    let q = n / d;
    vstd::arithmetic::mul::lemma_mul_is_commutative(d as int, q as int);
    vstd::arithmetic::mul::lemma_mul_is_distributive_add_other_way(d as int, q as int, 1);
}

proof fn lemma_spacing_fits(n: nat)
    ensures
        spacing(n) >= 1,
        n < 0x20_0000_0000_0000 * spacing(n),
        n >= 0x20_0000_0000_0000 ==> 0x10_0000_0000_0000 * spacing(n) <= n,
    decreases n,
{
    if n >= 0x20_0000_0000_0000 {
        lemma_spacing_fits(n / 2);
        if n / 2 < 0x20_0000_0000_0000 {
            assert(spacing(n / 2) == 1);
        }
    }
}

/// A size is shown as it is up to fifty-three binary digits, and beyond that with as many
/// of them as fit: off by half of the last of them at most.
pub proof fn law_sizes_are_rounded_to_fit(n: nat)
    ensures
        n < 0x20_0000_0000_0000 ==> rounded(n) == n,
        spacing(n) >= 1,
        -(spacing(n) as int) <= 2 * (n - rounded(n)) <= spacing(n),
        n < 0x20_0000_0000_0000 * spacing(n),
        n >= 0x20_0000_0000_0000 ==> 0x10_0000_0000_0000 * spacing(n) <= n,
{
    lemma_spacing_fits(n);
    law_nearest_is_nearest(n, spacing(n));
}

/// A size is shown in the largest unit of which it is one or more: each unit is 1024 of the
/// one before it, from bytes on to terabytes.
pub proof fn law_unit_fits_the_size(n: nat, unit: nat)
    ensures
        unit_size(0) == 1,
        unit < 4 ==> unit_size(unit + 1) == 1024 * unit_size(unit),
        unit_of(n) <= 4,
        n > 0 ==> unit_size(unit_of(n)) <= n,
        unit_of(n) < 4 ==> n < unit_size(unit_of(n) + 1),
        unit_name(0) == "B"@,
        unit_name(1) == "KB"@,
        unit_name(2) == "MB"@,
        unit_name(3) == "GB"@,
        unit_name(4) == "TB"@,
{
}

/// What is shown of a size is the size, as far as its digits go: a number of hundredths of a
/// unit that is off by half of a hundredth at most, written with two places behind the point
/// and the unit behind it.
pub proof fn law_shown_size_is_the_size(size: nat) -> (shown: (nat, nat))
    ensures
        size_text(size) == crate::number::decimal(shown.0 / 100) + "."@
            + crate::number::two_digits(shown.0 % 100) + " "@ + unit_name(shown.1),
        shown.1 <= 4,
        -(unit_size(shown.1) as int) <= 2 * (rounded(size) * 100 - shown.0 * unit_size(shown.1))
            <= unit_size(shown.1),
        rounded(size) > 0 ==> unit_size(shown.1) <= rounded(size),
        shown.1 < 4 ==> rounded(size) < unit_size(shown.1 + 1),
        size < 0x20_0000_0000_0000 ==> rounded(size) == size,
{
    law_sizes_are_rounded_to_fit(size);
    let n = rounded(size);
    law_unit_fits_the_size(n, 0);
    let unit = unit_of(n);
    let h = nearest(n * 100, unit_size(unit));
    law_nearest_is_nearest(n * 100, unit_size(unit));
    (h, unit)
}

}
