//! The remote command line.
//!
//! Every host runs the same command: follow the tail of the given files,
//! starting from the last `lines` lines. The command line is assembled here
//! byte by byte — the decimal rendering of the line count and the
//! space-joined file list included — so that what is executed remotely is
//! pinned down exactly.

use vstd::prelude::*;

verus! {

/// The byte ` ` that separates the files on the command line.
pub const SPACE: u8 = 32;

/// How many trailing lines are requested when the operator names no count.
pub const DEFAULT_LINES: usize = 10;

/// The decimal digits of `n`, most significant first, no sign, no padding.
pub open spec fn spec_decimal(n: nat) -> Seq<u8>
    decreases n,
{
    if n < 10 {
        seq![(48 + n) as u8]
    } else {
        spec_decimal(n / 10).push((48 + n % 10) as u8)
    }
}

/// Render `n` in decimal.
pub fn decimal_digits(n: usize) -> (v: Vec<u8>)
    ensures
        v@ == spec_decimal(n as nat),
    decreases n,
{
    if n < 10 {
        let mut v: Vec<u8> = Vec::new();
        v.push(48 + (n as u8));
        proof {
            assert(v@ =~= spec_decimal(n as nat));
        }
        v
    } else {
        let mut v = decimal_digits(n / 10);
        v.push(48 + ((n % 10) as u8));
        proof {
            assert(v@ =~= spec_decimal(n as nat));
        }
        v
    }
}

/// The items laid end to end with `sep` between neighbours.
pub open spec fn spec_join(items: Seq<Seq<u8>>, sep: u8) -> Seq<u8>
    decreases items.len(),
{
    if items.len() == 0 {
        Seq::empty()
    } else if items.len() == 1 {
        items[0]
    } else {
        spec_join(items.drop_last(), sep) + seq![sep] + items.last()
    }
}

/// Join the items with `sep` between neighbours.
pub fn join_with(items: &Vec<Vec<u8>>, sep: u8) -> (v: Vec<u8>)
    ensures
        v@ == spec_join(items@.map_values(|x: Vec<u8>| x@), sep),
{
    let ghost views = items@.map_values(|x: Vec<u8>| x@);
    let mut v: Vec<u8> = Vec::new();
    let mut i: usize = 0;
    while i < items.len()
        invariant
            i <= items@.len(),
            views == items@.map_values(|x: Vec<u8>| x@),
            v@ == spec_join(views.take(i as int), sep),
        decreases items@.len() - i,
    {
        let ghost before = v@;
        if i > 0 {
            v.push(sep);
        }
        v.extend_from_slice(items[i].as_slice());
        proof {
            assert(views.take(i + 1).last() == views[i as int]);
            if i == 0 {
                assert(v@ =~= views[0]);
                assert(views.take(1).len() == 1);
                assert(spec_join(views.take(1), sep) == views.take(1)[0]);
                assert(views.take(1)[0] == views[0]);
            } else {
                assert(v@ =~= before + seq![sep] + views[i as int]);
                assert(views.take(i + 1).drop_last() =~= views.take(i as int));
            }
        }
        i += 1;
    }
    proof {
        assert(views.take(views.len() as int) =~= views);
    }
    v
}

/// `tail -n `, the front of the remote command.
pub open spec fn spec_tail_prefix() -> Seq<u8> {
    seq![116u8, 97u8, 105u8, 108u8, 32u8, 45u8, 110u8, 32u8]
}

/// ` -f `, between the line count and the file list.
pub open spec fn spec_follow_flag() -> Seq<u8> {
    seq![32u8, 45u8, 102u8, 32u8]
}

/// The whole remote command line: `tail -n <lines> -f <files...>`.
pub open spec fn spec_tail_command(lines: nat, files: Seq<Seq<u8>>) -> Seq<u8> {
    spec_tail_prefix() + spec_decimal(lines) + spec_follow_flag() + spec_join(files, SPACE)
}

/// Assemble the remote command line for the given line count — the default
/// when the operator named none — and files.
pub fn tail_command(lines: Option<usize>, files: &Vec<Vec<u8>>) -> (v: Vec<u8>)
    ensures
        v@ == spec_tail_command(
            match lines {
                Some(n) => n as nat,
                None => DEFAULT_LINES as nat,
            },
            files@.map_values(|x: Vec<u8>| x@),
        ),
{
    let n = match lines {
        Some(n) => n,
        None => DEFAULT_LINES,
    };
    let digits = decimal_digits(n);
    let joined = join_with(files, SPACE);
    let mut v: Vec<u8> = Vec::new();
    v.push(116);
    v.push(97);
    v.push(105);
    v.push(108);
    v.push(32);
    v.push(45);
    v.push(110);
    v.push(32);
    v.extend_from_slice(digits.as_slice());
    v.push(32);
    v.push(45);
    v.push(102);
    v.push(32);
    v.extend_from_slice(joined.as_slice());
    proof {
        assert(v@ =~= spec_tail_prefix() + spec_decimal(n as nat) + spec_follow_flag()
            + joined@);
    }
    v
}

} // verus!
