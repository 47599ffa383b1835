//! Parsing comma-separated decimal field elements.
use vstd::prelude::*;

use crate::field::{scalar_modulus, scalar_values, Scalar};
use ark_ff::PrimeField;
use std::str::FromStr;

verus! {

/// The pieces of `s` between occurrences of `d` (an empty `s` gives one empty piece).
pub open spec fn split_spec(s: Seq<char>, d: char) -> Seq<Seq<char>>
    decreases s.len(),
{
    if s.len() == 0 {
        seq![Seq::<char>::empty()]
    } else {
        let rest = split_spec(s.drop_first(), d);
        if s[0] == d {
            seq![Seq::<char>::empty()] + rest
        } else {
            rest.update(0, seq![s[0]] + rest[0])
        }
    }
}

/// Whether `c` is an ASCII decimal digit.
pub open spec fn is_digit(c: char) -> bool {
    '0' <= c <= '9'
}

/// Whether `c` may occur in a decimal integer literal: a digit, `_`, `+` or `-`.
pub open spec fn may_occur_in_integer(c: char) -> bool {
    is_digit(c) || c == '_' || c == '+' || c == '-'
}

/// Whether `s` holds a character that cannot occur in a decimal integer literal.
pub open spec fn has_foreign_char(s: Seq<char>) -> bool {
    exists|i: int| 0 <= i < s.len() && !may_occur_in_integer(#[trigger] s[i])
}

/// Whether `s` is a non-empty string of decimal digits.
pub open spec fn is_decimal(s: Seq<char>) -> bool {
    s.len() > 0 && forall|i: int| 0 <= i < s.len() ==> is_digit(#[trigger] s[i])
}

/// The value of a string of decimal digits.
pub open spec fn decimal_value(s: Seq<char>) -> nat
    decreases s.len(),
{
    if s.len() == 0 {
        0
    } else {
        decimal_value(s.drop_last()) * 10 + (s.last() as nat - '0' as nat) as nat
    }
}

/// The value of `ark_bn254::Fr::from_str` on a string, if it parses.
pub uninterp spec fn fr_from_str_spec(s: Seq<char>) -> Option<nat>;

/// The values of the pieces that parse, in order.
pub open spec fn parse_fields_spec(pieces: Seq<Seq<char>>) -> Seq<nat>
    decreases pieces.len(),
{
    if pieces.len() == 0 {
        Seq::empty()
    } else {
        let prev = parse_fields_spec(pieces.drop_last());
        match fr_from_str_spec(pieces.last()) {
            Some(v) => prev.push(v),
            None => prev,
        }
    }
}

/// What is known of how a piece parses: a non-empty string of digits parses to its
/// decimal value modulo the field order; the empty string and a string with a
/// character other than a digit, `_`, `+` or `-` do not parse.
pub open spec fn piece_parse_facts(p: Seq<char>) -> bool {
    &&& is_decimal(p) ==> fr_from_str_spec(p) == Some(decimal_value(p) % scalar_modulus())
    &&& (p.len() == 0 || has_foreign_char(p)) ==> fr_from_str_spec(p) is None
}

/// Calls `str::split(',')` and collects the pieces. Claimed: the pieces are those of
/// `split_spec`.
#[verifier::external_body]
fn split_commas(s: &str) -> (r: Vec<String>)
    ensures
        r@.map_values(|p: String| p@) == split_spec(s@, ','),
{
    s.split(',').map(|p| p.to_string()).collect()
}

/// Calls `ark_bn254::Fr::from_str`. Claimed: the result is the name `fr_from_str_spec`
/// of the string; a parsed value is below the modulus; the empty string and any
/// string with a character other than a digit, `_`, `+` or `-` do not parse; a
/// non-empty string of digits parses to its decimal value modulo the field order.
#[verifier::external_body]
fn fr_from_decimal(s: &str) -> (r: Option<Scalar>)
    ensures
        r matches Some(x) ==> fr_from_str_spec(s@) == Some(x@) && x@ < scalar_modulus(),
        r is None ==> fr_from_str_spec(s@) is None,
        s@.len() == 0 ==> r is None,
        has_foreign_char(s@) ==> r is None,
        is_decimal(s@) ==> r is Some && r.unwrap()@ == decimal_value(s@) % scalar_modulus(),
{
    ark_bn254::Fr::from_str(s).ok().map(|f| Scalar { limbs: f.into_bigint().0 })
}

/// The field elements written in `input_string`, separated by commas; pieces that do
/// not parse are skipped.
pub fn parse_prime_fields(input_string: &str) -> (r: Vec<Scalar>)
    ensures
        scalar_values(r@) == parse_fields_spec(split_spec(input_string@, ',')),
        forall|i: int|
            0 <= i < split_spec(input_string@, ',').len() ==> #[trigger] piece_parse_facts(
                split_spec(input_string@, ',')[i],
            ),
        (forall|i: int|
            0 <= i < split_spec(input_string@, ',').len() ==> #[trigger] is_decimal(
                split_spec(input_string@, ',')[i],
            )) ==> r@.len() == split_spec(input_string@, ',').len() && forall|i: int|
            0 <= i < r@.len() ==> (#[trigger] r@[i])@ == decimal_value(
                split_spec(input_string@, ',')[i],
            ) % scalar_modulus(),
{
    let pieces = split_commas(input_string);
    let ghost views = pieces@.map_values(|p: String| p@);
    let mut res: Vec<Scalar> = Vec::new();
    let mut i: usize = 0;
    while i < pieces.len()
        invariant
            i <= pieces@.len(),
            views == pieces@.map_values(|p: String| p@),
            scalar_values(res@) == parse_fields_spec(views.subrange(0, i as int)),
            forall|j: int| 0 <= j < i ==> #[trigger] piece_parse_facts(views[j]),
        decreases pieces.len() - i,
    {
        let parsed = fr_from_decimal(pieces[i].as_str());
        proof {
            assert(views.subrange(0, i + 1).drop_last() =~= views.subrange(0, i as int));
            assert(views.subrange(0, i + 1).last() == pieces@[i as int]@);
            assert(views[i as int] == pieces@[i as int]@);
            assert(piece_parse_facts(views[i as int]));
        }
        match parsed {
            Some(x) => {
                res.push(x);
                assert(scalar_values(res@) =~= parse_fields_spec(views.subrange(0, i as int)).push(
                    x@,
                ));
            },
            None => {},
        }
        i = i + 1;
    }
    assert(views.subrange(0, pieces@.len() as int) =~= views);
    proof {
        if forall|i: int| 0 <= i < views.len() ==> #[trigger] is_decimal(views[i]) {
            law_parse_decimal_pieces(views);
            assert(scalar_values(res@).len() == res@.len());
            assert forall|i: int| 0 <= i < res@.len() implies (#[trigger] res@[i])@
                == decimal_value(views[i]) % scalar_modulus() by {
                assert(scalar_values(res@)[i] == res@[i]@);
            }
        }
    }
    res
}

/// Parsing two runs of pieces one after the other gives the two results one after
/// the other.
pub proof fn law_parse_concat(a: Seq<Seq<char>>, b: Seq<Seq<char>>)
    ensures
        parse_fields_spec(a + b) == parse_fields_spec(a) + parse_fields_spec(b),
    decreases b.len(),
{
    if b.len() == 0 {
        assert(a + b =~= a);
        assert(parse_fields_spec(a) + parse_fields_spec(b) =~= parse_fields_spec(a));
    } else {
        law_parse_concat(a, b.drop_last());
        assert((a + b).drop_last() =~= a + b.drop_last());
        assert((a + b).last() == b.last());
        let pb = parse_fields_spec(b.drop_last());
        match fr_from_str_spec(b.last()) {
            Some(v) => {
                assert(parse_fields_spec(a) + pb.push(v) =~= (parse_fields_spec(a) + pb).push(v));
            },
            None => {},
        }
    }
}

/// A piece that is empty or holds a character that cannot occur in a decimal
/// integer contributes nothing: the result is that of the other pieces.
pub proof fn law_parse_skips_failing(a: Seq<Seq<char>>, x: Seq<char>, b: Seq<Seq<char>>)
    requires
        piece_parse_facts(x),
        x.len() == 0 || has_foreign_char(x),
    ensures
        parse_fields_spec(a + seq![x] + b) == parse_fields_spec(a + b),
{
    law_parse_concat(a + seq![x], b);
    law_parse_concat(a, b);
    assert((a + seq![x]).drop_last() =~= a);
    assert((a + seq![x]).last() == x);
}

/// When every piece is a non-empty string of decimal digits, the result has one
/// element per piece, in order: the piece's decimal value modulo the field order.
pub proof fn law_parse_decimal_pieces(pieces: Seq<Seq<char>>)
    requires
        forall|i: int| 0 <= i < pieces.len() ==> #[trigger] piece_parse_facts(pieces[i]),
        forall|i: int| 0 <= i < pieces.len() ==> #[trigger] is_decimal(pieces[i]),
    ensures
        parse_fields_spec(pieces) == Seq::new(
            pieces.len(),
            |i: int| decimal_value(pieces[i]) % scalar_modulus(),
        ),
    decreases pieces.len(),
{
    if pieces.len() > 0 {
        let prev = pieces.drop_last();
        assert forall|i: int| 0 <= i < prev.len() implies #[trigger] piece_parse_facts(prev[i])
            && is_decimal(prev[i]) by {
            assert(prev[i] == pieces[i]);
            assert(piece_parse_facts(pieces[i]) && is_decimal(pieces[i]));
        }
        law_parse_decimal_pieces(prev);
        let last = pieces.last();
        assert(last == pieces[pieces.len() - 1]);
        assert(piece_parse_facts(last) && is_decimal(last));
        assert(fr_from_str_spec(last) == Some(decimal_value(last) % scalar_modulus()));
        assert(parse_fields_spec(pieces) =~= Seq::new(
            pieces.len(),
            |i: int| decimal_value(pieces[i]) % scalar_modulus(),
        ));
    }
}

} // verus!
