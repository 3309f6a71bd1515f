use vstd::prelude::*;

use crate::ast::StatementParameter;
use crate::classify::{
    is_ident_char, is_ident_seq, is_ident_start, pre_anim, pre_fac, pre_g, pre_icon, pre_id,
    pre_itm, pre_menu, pre_mesh, pre_mst, pre_p, pre_pfx, pre_pos, pre_prsnt, pre_psys, pre_pt,
    pre_qst, pre_reg, pre_scn, pre_script, pre_skl, pre_snd, pre_spr, pre_str, pre_tableau,
    pre_trp, token_param, token_value_ok, wf_param_token,
};
use crate::digits::{all_digits, dec_val, is_digit, is_number_token, number_val};

verus! {

/// The decimal digits of a natural number, as ASCII bytes, most
/// significant first, no leading zeroes (a lone zero for zero).
pub open spec fn dec_bytes(n: nat) -> Seq<u8>
    decreases n,
{
    if n < 10 {
        seq![(n + 48) as u8]
    } else {
        dec_bytes(n / 10).push((n % 10 + 48) as u8)
    }
}

/// The ASCII decimal representation of a signed integer: an optional
/// leading minus sign, then the digits of its magnitude.
pub open spec fn number_repr(n: int) -> Seq<u8> {
    if n < 0 {
        seq![45u8] + dec_bytes((-n) as nat)
    } else {
        dec_bytes(n as nat)
    }
}

/// The digits of a natural number denote it: every byte is a digit
/// and the run reads back to the same value.
pub proof fn lemma_dec_bytes_val(n: nat)
    ensures
        dec_bytes(n).len() > 0,
        all_digits(dec_bytes(n)),
        dec_val(dec_bytes(n)) == n,
    decreases n,
{
    if n < 10 {
        assert(dec_bytes(n).drop_last() =~= Seq::<u8>::empty());
        assert(dec_val(Seq::<u8>::empty()) == 0);
        assert((n + 48) as u8 == n + 48);
        assert(dec_bytes(n).last() == (n + 48) as u8);
        assert(dec_val(dec_bytes(n)) == n);
    } else {
        lemma_dec_bytes_val(n / 10);
        assert(dec_bytes(n).drop_last() =~= dec_bytes(n / 10));
        assert(dec_bytes(n).last() == (n % 10 + 48) as u8);
        assert(dec_val(dec_bytes(n)) == (n / 10) * 10 + n % 10);
        assert((n / 10) * 10 + n % 10 == n) by (nonlinear_arith);
        assert(forall|i: int|
            0 <= i < dec_bytes(n).len() ==> is_digit(#[trigger] dec_bytes(n)[i]));
    }
}

/// Round trip for numeric literals: the decimal representation of
/// any signed 64-bit integer is a numeric token that reads back to
/// exactly that integer, is accepted by the parameter grammar, and
/// is related by the classification relation to `Number(n)` and to
/// no other parameter.
pub proof fn lemma_number_literal_round_trip(n: i64)
    ensures
        is_number_token(number_repr(n as int)),
        number_val(number_repr(n as int)) == n as int,
        wf_param_token(number_repr(n as int)),
        token_value_ok(number_repr(n as int)),
        token_param(number_repr(n as int), StatementParameter::Number(n)),
        forall|p: StatementParameter|
            #[trigger] token_param(number_repr(n as int), p) ==> p == StatementParameter::Number(n),
{
    let t = number_repr(n as int);
    if n < 0 {
        lemma_dec_bytes_val((-(n as int)) as nat);
        assert(t[0] == 45);
        assert(t.subrange(1, t.len() as int) =~= dec_bytes((-(n as int)) as nat));
        assert(is_number_token(t));
        assert(number_val(t) == n as int);
    } else {
        lemma_dec_bytes_val(n as nat);
        assert(is_digit(t[0]));
        assert(is_number_token(t));
        assert(number_val(t) == n as int);
    }
    assert forall|p: StatementParameter| #[trigger]
        token_param(t, p) implies p == StatementParameter::Number(n) by {
        assert(!is_ident_start(t[0]) && t[0] != 58 && t[0] != 36);
        match p {
            StatementParameter::Number(m) => {
                assert(m == number_val(t));
            },
            _ => {},
        }
    }
}

/// An identifier holds no dot, so it never begins with a dotted
/// prefix whose dot stands at index `k`.
proof fn lemma_ident_no_dot_prefix(t: Seq<u8>, q: Seq<u8>, k: int)
    requires
        is_ident_seq(t),
        1 <= k < q.len(),
        q[k] == 46,
    ensures
        !crate::classify::seq_starts_with(t, q),
{
    if crate::classify::seq_starts_with(t, q) {
        assert(t[k] == q[k]);
        assert(is_ident_char(t[k]));
    }
}

/// A bare identifier always parses: it is a well-formed parameter
/// token with no value fault, and the classification relation admits
/// it only as `Identifier`. Whether its name stands in the symbol
/// table plays no part: resolution is deferred to projection, where
/// an absent name yields a placeholder, never an error.
pub proof fn lemma_bare_identifier_accepted(t: Seq<u8>)
    requires
        is_ident_seq(t),
    ensures
        wf_param_token(t),
        token_value_ok(t),
        forall|p: StatementParameter|
            #[trigger] token_param(t, p) ==> p matches StatementParameter::Identifier(_),
{
    lemma_ident_no_dot_prefix(t, pre_reg(), 3);
    lemma_ident_no_dot_prefix(t, pre_str(), 3);
    lemma_ident_no_dot_prefix(t, pre_pos(), 3);
    lemma_ident_no_dot_prefix(t, pre_g(), 1);
    lemma_ident_no_dot_prefix(t, pre_anim(), 4);
    lemma_ident_no_dot_prefix(t, pre_fac(), 3);
    lemma_ident_no_dot_prefix(t, pre_id(), 2);
    lemma_ident_no_dot_prefix(t, pre_itm(), 3);
    lemma_ident_no_dot_prefix(t, pre_icon(), 4);
    lemma_ident_no_dot_prefix(t, pre_menu(), 4);
    lemma_ident_no_dot_prefix(t, pre_mesh(), 4);
    lemma_ident_no_dot_prefix(t, pre_mst(), 3);
    lemma_ident_no_dot_prefix(t, pre_psys(), 4);
    lemma_ident_no_dot_prefix(t, pre_p(), 1);
    lemma_ident_no_dot_prefix(t, pre_pt(), 2);
    lemma_ident_no_dot_prefix(t, pre_pfx(), 3);
    lemma_ident_no_dot_prefix(t, pre_prsnt(), 5);
    lemma_ident_no_dot_prefix(t, pre_qst(), 3);
    lemma_ident_no_dot_prefix(t, pre_spr(), 3);
    lemma_ident_no_dot_prefix(t, pre_scn(), 3);
    lemma_ident_no_dot_prefix(t, pre_script(), 6);
    lemma_ident_no_dot_prefix(t, pre_skl(), 3);
    lemma_ident_no_dot_prefix(t, pre_snd(), 3);
    lemma_ident_no_dot_prefix(t, pre_tableau(), 7);
    lemma_ident_no_dot_prefix(t, pre_trp(), 3);
    assert(!is_number_token(t)) by {
        if is_number_token(t) {
            if t[0] == 45 {
                assert(is_ident_start(t[0]));
            } else {
                assert(is_digit(t[0]) && is_ident_start(t[0]));
            }
        }
    }
    assert forall|p: StatementParameter| #[trigger]
        token_param(t, p) implies p matches StatementParameter::Identifier(_) by {
        if !(p matches StatementParameter::Identifier(_)) {
            assert(t[0] != 58 && t[0] != 36);
        }
    }
}

/// Shape alone chooses the variant: for one token, the
/// classification relation admits at most one register family, the
/// one whose prefix the token carries.
pub proof fn lemma_register_families_disjoint(t: Seq<u8>, p1: StatementParameter, p2: StatementParameter)
    requires
        token_param(t, p1),
        token_param(t, p2),
        p1 matches StatementParameter::Register(_),
    ensures
        !(p2 matches StatementParameter::StringRegister(_)),
        !(p2 matches StatementParameter::PositionRegister(_)),
{
    if p2 matches StatementParameter::StringRegister(_) {
        assert(t[0] == 114 && t[0] == 115);
    }
    if p2 matches StatementParameter::PositionRegister(_) {
        assert(t[0] == 114 && t[0] == 112);
    }
}

} // verus!
