//! SAN token handling at the configuration boundary: a comma-separated
//! list of starting moves is split and each piece is validated and
//! canonicalized by the chess-notation crate.

use vstd::prelude::*;

use vstd::string::StrSliceExecFns;

use crate::text::chars_to_string;

verus! {

/// What the SAN parser makes of a token: `None` when the token is not
/// syntactically valid SAN, otherwise the canonical rendering of the
/// parsed move. The result depends on the characters alone.
pub uninterp spec fn san_parse(s: Seq<char>) -> Option<Seq<char>>;

/// Relies on shakmaty's `SanPlus` (re-exported by pgn-reader):
/// `FromStr` parses a SAN token purely from its characters, and `Display`
/// renders the parsed value canonically; both are functions of the input
/// alone.
#[verifier::external_body]
fn san_from_str(s: &str) -> (r: Option<String>)
    ensures
        r is Some <==> san_parse(s@) is Some,
        r is Some ==> r.unwrap()@ == san_parse(s@).unwrap(),
{
    match s.parse::<pgn_reader::SanPlus>() {
        Ok(sp) => Some(sp.to_string()),
        Err(_) => None,
    }
}

/// The position of the first comma of `s`, or its length when it has none.
pub open spec fn first_comma(s: Seq<char>) -> int
    decreases s.len(),
{
    if s.len() == 0 {
        0
    } else if s[0] == ',' {
        0
    } else {
        1 + first_comma(s.skip(1))
    }
}

/// A scan that saw no comma before `k`, and a comma (or the end) at `k`,
/// has found the first comma.
proof fn lemma_first_comma_is(s: Seq<char>, k: int)
    requires
        0 <= k <= s.len(),
        forall|i: int| 0 <= i < k ==> s[i] != ',',
        k < s.len() ==> s[k] == ',',
    ensures
        first_comma(s) == k,
    decreases s.len(),
{
    if s.len() > 0 && k > 0 {
        assert forall|i: int| 0 <= i < k - 1 implies s.skip(1)[i] != ',' by {
            assert(s.skip(1)[i] == s[i + 1]);
        }
        assert(k - 1 < s.skip(1).len() ==> s.skip(1)[k - 1] == s[k]);
        lemma_first_comma_is(s.skip(1), k - 1);
    }
}

/// The comma-separated pieces of `s`, in order; the empty string has one
/// empty piece, like std's `split`.
pub open spec fn spec_split_commas(s: Seq<char>) -> Seq<Seq<char>>
    decreases s.len(),
{
    let k = first_comma(s);
    if !(0 <= k < s.len()) {
        seq![s]
    } else {
        seq![s.take(k)] + spec_split_commas(s.skip(k + 1))
    }
}

/// Whether every comma-separated piece of `s` is valid SAN.
pub open spec fn all_pieces_parse(s: Seq<char>) -> bool {
    forall|i: int|
        0 <= i < spec_split_commas(s).len() ==> san_parse(#[trigger] spec_split_commas(s)[i])
            is Some
}

/// The canonical tokens of a fully valid comma-separated list.
pub open spec fn spec_parsed_moves(s: Seq<char>) -> Seq<Seq<char>> {
    spec_split_commas(s).map_values(|p: Seq<char>| san_parse(p).unwrap())
}

/// Splits a comma-separated list of starting moves and validates each
/// piece as SAN, yielding the canonical token list; the first invalid
/// piece rejects the whole list.
pub fn starting_moves_from_str(s: &str) -> (r: Option<Vec<String>>)
    ensures
        r is Some <==> all_pieces_parse(s@),
        r is Some ==> r.unwrap().deep_view() == spec_parsed_moves(s@),
{
    let n = s.unicode_len();
    let mut out: Vec<String> = Vec::new();
    let mut p: usize = 0;
    let ghost whole = s@;
    let ghost mut done: Seq<Seq<char>> = Seq::empty();
    proof {
        assert(whole.skip(0) =~= whole);
        assert(done + spec_split_commas(whole) =~= spec_split_commas(whole));
    }
    loop
        invariant
            n == whole.len(),
            whole == s@,
            p <= n,
            spec_split_commas(whole) == done + spec_split_commas(whole.skip(p as int)),
            out.deep_view().len() == done.len(),
            forall|i: int| 0 <= i < done.len() ==> san_parse(#[trigger] done[i]) is Some,
            forall|i: int|
                0 <= i < done.len() ==> out.deep_view()[i] == san_parse(#[trigger] done[i]).unwrap(),
        decreases n - p,
    {
        let mut cur: Vec<char> = Vec::new();
        let mut q: usize = p;
        while q < n && s.get_char(q) != ','
            invariant
                n == whole.len(),
                whole == s@,
                p <= q <= n,
                cur@ == whole.subrange(p as int, q as int),
                forall|k: int| p <= k < q ==> whole[k] != ',',
            decreases n - q,
        {
            cur.push(s.get_char(q));
            proof {
                assert(cur@ =~= whole.subrange(p as int, q + 1 as int));
            }
            q += 1;
        }
        let ghost rest = whole.skip(p as int);
        let ghost piece_view = whole.subrange(p as int, q as int);
        proof {
            assert forall|k: int| 0 <= k < q - p implies rest[k] != ',' by {
                assert(rest[k] == whole[p + k]);
            }
            if q < n {
                assert(rest[q - p] == whole[q as int]);
            }
            lemma_first_comma_is(rest, q - p);
            assert(rest.take(q - p) =~= piece_view);
            if q < n {
                assert(spec_split_commas(rest) == seq![piece_view] + spec_split_commas(
                    rest.skip(q - p + 1),
                ));
                assert(rest.skip(q - p + 1) =~= whole.skip(q + 1 as int));
            } else {
                assert(rest =~= piece_view);
                assert(spec_split_commas(rest) == seq![piece_view]);
            }
            assert(spec_split_commas(whole)[done.len() as int] == piece_view);
        }
        let piece = chars_to_string(&cur);
        match san_from_str(piece.as_str()) {
            None => {
                proof {
                    assert(!all_pieces_parse(whole));
                }
                return None;
            },
            Some(canon) => {
                out.push(canon);
                proof {
                    done = done.push(piece_view);
                }
            },
        }
        if q == n {
            proof {
                assert(spec_split_commas(whole) =~= done);
                assert(all_pieces_parse(whole));
                assert(out.deep_view() =~= spec_parsed_moves(whole));
            }
            return Some(out);
        }
        p = q + 1;
    }
}

} // verus!
