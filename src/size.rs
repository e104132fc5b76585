//! Human-readable byte counts.
use vstd::prelude::*;
use vstd::string::*;
use crate::text::{decimal_of, push_decimal};

verus! {

pub const KB: u64 = 1024;
pub const MB: u64 = 1024 * 1024;
pub const GB: u64 = 1024 * 1024 * 1024;

/// `n / d` rounded to the nearest integer, ties to the even neighbour.
pub open spec fn div_round_even(n: nat, d: nat) -> nat {
    let q = n / d;
    let r = n % d;
    if 2 * r > d || (2 * r == d && q % 2 == 1) { q + 1 } else { q }
}

/// `n / d` with one decimal: its tenths rounded to the nearest, ties to even.
pub open spec fn one_decimal(n: nat, d: nat) -> Seq<char> {
    let t = div_round_even(10 * n, d);
    decimal_of(t / 10) + "."@ + decimal_of(t % 10)
}

/// A byte count in the largest binary unit it reaches, with one decimal, or in
/// plain bytes below one kilobyte.
pub open spec fn size_text(bytes: nat) -> Seq<char> {
    if bytes >= GB {
        one_decimal(bytes, GB as nat) + " GB"@
    } else if bytes >= MB {
        one_decimal(bytes, MB as nat) + " MB"@
    } else if bytes >= KB {
        one_decimal(bytes, KB as nat) + " KB"@
    } else {
        decimal_of(bytes) + " B"@
    }
}

fn push_one_decimal(out: &mut String, n: u64, d: u64)
    requires
        d > 0,
    ensures
        final(out)@ == old(out)@ + one_decimal(n as nat, d as nat),
{
    let ghost start = out@;
    let scaled: u128 = n as u128 * 10;
    let q: u128 = scaled / d as u128;
    let r: u128 = scaled % d as u128;
    let t: u128 = if 2 * r > d as u128 || (2 * r == d as u128 && q % 2 == 1) { q + 1 } else { q };
    assert(t <= 10 * (n as nat) + 1) by (nonlinear_arith)
        requires
            q == (10 * n) / (d as int),
            t <= q + 1,
            d > 0,
    ;
    push_decimal(out, (t / 10) as u64);
    out.append(".");
    push_decimal(out, (t % 10) as u64);
    assert(out@ =~= start + one_decimal(n as nat, d as nat));
}

/// Formats a byte count (see `size_text`).
pub fn format_size(bytes: u64) -> (r: String)
    ensures
        r@ == size_text(bytes as nat),
{
    let mut out = String::new();
    if bytes >= GB {
        push_one_decimal(&mut out, bytes, GB);
        out.append(" GB");
    } else if bytes >= MB {
        push_one_decimal(&mut out, bytes, MB);
        out.append(" MB");
    } else if bytes >= KB {
        push_one_decimal(&mut out, bytes, KB);
        out.append(" KB");
    } else {
        push_decimal(&mut out, bytes);
        out.append(" B");
    }
    assert(out@ =~= size_text(bytes as nat));
    out
}

} // verus!
