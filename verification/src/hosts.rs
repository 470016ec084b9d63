//! The fleet members: parsing the operator's host list into targets.
//!
//! The operator hands over any number of server arguments, each holding one
//! or more comma-separated entries of the shape `user@host`. Every entry
//! with an `@` becomes one target, split at its first `@`; entries without
//! one are skipped. A target's identity — the string that addresses its
//! connection and labels its output — is `user@host` put back together.
//!
//! The separators are plain ASCII bytes, so the logic works on the raw
//! bytes of the arguments.

use vstd::prelude::*;
use vstd::slice::slice_subrange;
use vstd::slice::slice_to_vec;

verus! {

/// The byte `,` that separates entries within one server argument.
pub const COMMA: u8 = 44;

/// The byte `@` that separates user from host within one entry.
pub const AT_SIGN: u8 = 64;

/// One fleet member to run the command on.
#[derive(Debug, PartialEq, Eq)]
pub struct HostTarget {
    pub user: Vec<u8>,
    pub host: Vec<u8>,
}

/// The position of the first occurrence of `b` in `s`, if any.
pub open spec fn find_byte(s: Seq<u8>, b: u8) -> Option<int>
    decreases s.len(),
{
    if s.len() == 0 {
        None::<int>
    } else if s[0] == b {
        Some(0int)
    } else {
        match find_byte(s.drop_first(), b) {
            Option::None => None::<int>,
            Option::Some(i) => Some(i + 1),
        }
    }
}

/// A found position is a real position of `s`.
pub proof fn lemma_find_byte_bounds(s: Seq<u8>, b: u8)
    ensures
        find_byte(s, b) matches Some(i) ==> 0 <= i < s.len(),
    decreases s.len(),
{
    if s.len() > 0 && s[0] != b {
        lemma_find_byte_bounds(s.drop_first(), b);
    }
}

/// A sequence without `b` has no first occurrence of it.
pub proof fn lemma_find_byte_none(s: Seq<u8>, b: u8)
    requires
        forall|k: int| 0 <= k < s.len() ==> s[k] != b,
    ensures
        find_byte(s, b) is None,
    decreases s.len(),
{
    if s.len() > 0 {
        assert forall|k: int| 0 <= k < s.drop_first().len() implies s.drop_first()[k] != b by {
            assert(s.drop_first()[k] == s[k + 1]);
        }
        lemma_find_byte_none(s.drop_first(), b);
    }
}

/// The position of `b` with nothing but other bytes before it is the first.
pub proof fn lemma_find_byte_first(s: Seq<u8>, b: u8, i: int)
    requires
        0 <= i < s.len(),
        s[i] == b,
        forall|k: int| 0 <= k < i ==> s[k] != b,
    ensures
        find_byte(s, b) == Some(i),
    decreases s.len(),
{
    if i > 0 {
        assert(s[0] != b);
        assert forall|k: int| 0 <= k < i - 1 implies s.drop_first()[k] != b by {
            assert(s.drop_first()[k] == s[k + 1]);
        }
        assert(s.drop_first()[i - 1] == s[i]);
        lemma_find_byte_first(s.drop_first(), b, i - 1);
    }
}

/// A server argument, cut at every comma; empty entries stay.
pub open spec fn split_at_commas(s: Seq<u8>) -> Seq<Seq<u8>>
    decreases s.len(),
    via split_at_commas_decreases
{
    match find_byte(s, COMMA) {
        Option::None => seq![s],
        Option::Some(i) => seq![s.take(i)] + split_at_commas(s.subrange(i + 1, s.len() as int)),
    }
}

#[via_fn]
proof fn split_at_commas_decreases(s: Seq<u8>) {
    lemma_find_byte_bounds(s, COMMA);
}

/// One entry's target: the entry split at its first `@`, or nothing for an
/// entry without one.
pub open spec fn spec_target_of(piece: Seq<u8>) -> Option<(Seq<u8>, Seq<u8>)> {
    match find_byte(piece, AT_SIGN) {
        Option::None => None::<(Seq<u8>, Seq<u8>)>,
        Option::Some(i) => Some((piece.take(i), piece.subrange(i + 1, piece.len() as int))),
    }
}

/// The targets of a run of entries, in order, entries without `@` skipped.
pub open spec fn spec_targets_of_pieces(pieces: Seq<Seq<u8>>) -> Seq<(Seq<u8>, Seq<u8>)>
    decreases pieces.len(),
{
    if pieces.len() == 0 {
        Seq::empty()
    } else {
        let rest = spec_targets_of_pieces(pieces.drop_last());
        match spec_target_of(pieces.last()) {
            Option::None => rest,
            Option::Some(t) => rest.push(t),
        }
    }
}

/// The targets of the whole argument list: every argument cut at commas,
/// every entry with an `@` kept, in the order given.
pub open spec fn spec_parse_targets(args: Seq<Seq<u8>>) -> Seq<(Seq<u8>, Seq<u8>)>
    decreases args.len(),
{
    if args.len() == 0 {
        Seq::empty()
    } else {
        spec_parse_targets(args.drop_last()) + spec_targets_of_pieces(
            split_at_commas(args.last()),
        )
    }
}

/// The first position of `b` in `v` at or after `start`, if any.
fn find_from(v: &Vec<u8>, start: usize, b: u8) -> (r: Option<usize>)
    requires
        start <= v@.len(),
    ensures
        match r {
            Some(i) => start <= i < v@.len() && v@[i as int] == b && (forall|k: int|
                start <= k < i ==> v@[k] != b),
            None => forall|k: int| start <= k < v@.len() ==> v@[k] != b,
        },
{
    let mut i = start;
    while i < v.len()
        invariant
            start <= i <= v@.len(),
            forall|k: int| start <= k < i ==> v@[k] != b,
        decreases v@.len() - i,
    {
        if v[i] == b {
            return Some(i);
        }
        i += 1;
    }
    None
}

/// The bytes of `v` from `from` up to `to`, as an owned vector.
fn copy_range(v: &Vec<u8>, from: usize, to: usize) -> (out: Vec<u8>)
    requires
        from <= to <= v@.len(),
    ensures
        out@ == v@.subrange(from as int, to as int),
{
    slice_to_vec(slice_subrange(v.as_slice(), from, to))
}

/// Cut one server argument at every comma; empty entries stay.
pub fn split_commas(s: &Vec<u8>) -> (out: Vec<Vec<u8>>)
    ensures
        out@.map_values(|p: Vec<u8>| p@) == split_at_commas(s@),
{
    let n = s.len();
    let mut out: Vec<Vec<u8>> = Vec::new();
    let mut start: usize = 0;
    proof {
        assert(s@.subrange(0, s@.len() as int) =~= s@);
        assert(out@.map_values(|p: Vec<u8>| p@) + split_at_commas(s@) =~= split_at_commas(s@));
    }
    loop
        invariant_except_break
            n == s@.len(),
            start <= s@.len(),
            out@.map_values(|p: Vec<u8>| p@) + split_at_commas(
                s@.subrange(start as int, s@.len() as int),
            ) == split_at_commas(s@),
        ensures
            out@.map_values(|p: Vec<u8>| p@) == split_at_commas(s@),
        decreases s@.len() - start,
    {
        let ghost tail = s@.subrange(start as int, s@.len() as int);
        match find_from(s, start, COMMA) {
            Some(i) => {
                proof {
                    assert(tail[i - start] == s@[i as int]);
                    assert forall|k: int| 0 <= k < i - start implies tail[k] != COMMA by {
                        assert(tail[k] == s@[start + k]);
                    }
                    lemma_find_byte_first(tail, COMMA, i - start);
                }
                let piece = copy_range(s, start, i);
                proof {
                    assert(piece@ =~= tail.take(i - start));
                    assert(s@.subrange(i + 1, s@.len() as int) =~= tail.subrange(
                        i - start + 1,
                        tail.len() as int,
                    ));
                    assert(split_at_commas(tail) == seq![piece@] + split_at_commas(
                        s@.subrange(i + 1, s@.len() as int),
                    ));
                }
                let ghost old_views = out@.map_values(|p: Vec<u8>| p@);
                out.push(piece);
                proof {
                    assert(out@.map_values(|p: Vec<u8>| p@) =~= old_views + seq![piece@]);
                    assert((old_views + seq![piece@]) + split_at_commas(
                        s@.subrange(i + 1, s@.len() as int),
                    ) =~= old_views + (seq![piece@] + split_at_commas(
                        s@.subrange(i + 1, s@.len() as int),
                    )));
                }
                start = i + 1;
            },
            None => {
                proof {
                    assert forall|k: int| 0 <= k < tail.len() implies tail[k] != COMMA by {
                        assert(tail[k] == s@[start + k]);
                    }
                    lemma_find_byte_none(tail, COMMA);
                }
                let piece = copy_range(s, start, n);
                proof {
                    assert(piece@ == tail);
                    assert(split_at_commas(tail) == seq![tail]);
                }
                let ghost old_views = out@.map_values(|p: Vec<u8>| p@);
                out.push(piece);
                proof {
                    assert(out@.map_values(|p: Vec<u8>| p@) =~= old_views + seq![piece@]);
                    assert(old_views + seq![tail] == split_at_commas(s@));
                }
                break;
            },
        }
    }
    out
}

/// The target of one entry: the entry split at its first `@`, or nothing.
pub fn target_of(piece: &Vec<u8>) -> (r: Option<HostTarget>)
    ensures
        match r {
            Some(t) => spec_target_of(piece@) == Some((t.user@, t.host@)),
            None => spec_target_of(piece@) is None,
        },
{
    match find_from(piece, 0, AT_SIGN) {
        Some(i) => {
            proof {
                lemma_find_byte_first(piece@, AT_SIGN, i as int);
            }
            let n = piece.len();
            let user = copy_range(piece, 0, i);
            let host = copy_range(piece, i + 1, n);
            proof {
                assert(user@ =~= piece@.take(i as int));
            }
            Some(HostTarget { user, host })
        },
        None => {
            proof {
                lemma_find_byte_none(piece@, AT_SIGN);
            }
            None
        },
    }
}

/// Parse the operator's whole argument list into the fleet's targets.
pub fn parse_targets(args: &Vec<Vec<u8>>) -> (out: Vec<HostTarget>)
    ensures
        out@.map_values(|t: HostTarget| (t.user@, t.host@)) == spec_parse_targets(
            args@.map_values(|a: Vec<u8>| a@),
        ),
{
    let ghost arg_views = args@.map_values(|a: Vec<u8>| a@);
    let mut out: Vec<HostTarget> = Vec::new();
    let mut i: usize = 0;
    while i < args.len()
        invariant
            i <= args@.len(),
            arg_views == args@.map_values(|a: Vec<u8>| a@),
            out@.map_values(|t: HostTarget| (t.user@, t.host@)) == spec_parse_targets(
                arg_views.take(i as int),
            ),
        decreases args@.len() - i,
    {
        let pieces = split_commas(&args[i]);
        let ghost piece_views = pieces@.map_values(|p: Vec<u8>| p@);
        let ghost before = out@.map_values(|t: HostTarget| (t.user@, t.host@));
        let mut j: usize = 0;
        while j < pieces.len()
            invariant
                j <= pieces@.len(),
                piece_views == pieces@.map_values(|p: Vec<u8>| p@),
                out@.map_values(|t: HostTarget| (t.user@, t.host@)) == before
                    + spec_targets_of_pieces(piece_views.take(j as int)),
            decreases pieces@.len() - j,
        {
            proof {
                assert(piece_views.take(j + 1).drop_last() =~= piece_views.take(j as int));
                assert(piece_views.take(j + 1).last() == piece_views[j as int]);
            }
            let ghost mid = out@.map_values(|t: HostTarget| (t.user@, t.host@));
            match target_of(&pieces[j]) {
                Some(t) => {
                    out.push(t);
                    proof {
                        assert(out@.map_values(|t: HostTarget| (t.user@, t.host@)) =~= mid.push(
                            (out@.last().user@, out@.last().host@),
                        ));
                    }
                },
                None => {},
            }
            j += 1;
        }
        proof {
            assert(piece_views.take(piece_views.len() as int) =~= piece_views);
            assert(arg_views.take(i + 1).drop_last() =~= arg_views.take(i as int));
            assert(arg_views.take(i + 1).last() == arg_views[i as int]);
            assert(piece_views == split_at_commas(arg_views[i as int]));
        }
        i += 1;
    }
    proof {
        assert(arg_views.take(arg_views.len() as int) =~= arg_views);
    }
    out
}

/// The identity string `user@host` that addresses a target's connection and
/// labels its output.
pub fn identity_of(user: &Vec<u8>, host: &Vec<u8>) -> (id: Vec<u8>)
    ensures
        id@ == user@ + seq![AT_SIGN] + host@,
{
    let mut id: Vec<u8> = Vec::new();
    id.extend_from_slice(user.as_slice());
    id.push(AT_SIGN);
    id.extend_from_slice(host.as_slice());
    proof {
        assert(id@ =~= user@ + seq![AT_SIGN] + host@);
    }
    id
}

} // verus!
