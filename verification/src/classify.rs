use vstd::prelude::*;

use crate::ast::{StatementParameter, StatementParameterId};
use crate::digits::{
    all_digits, dec_val, is_digit, is_number_token, number_val, parse_i64_token, parse_u8_digits,
};
use crate::errors::{positioned_message, Error, SourceError};
use crate::text::{ascii_chars, ascii_to_string};

verus! {

/// A byte that may start an identifier: a letter or an underscore.
pub open spec fn is_ident_start(b: u8) -> bool {
    (65 <= b <= 90) || (97 <= b <= 122) || b == 95
}

/// A byte that may continue an identifier.
pub open spec fn is_ident_char(b: u8) -> bool {
    is_ident_start(b) || is_digit(b)
}

/// A whole identifier: a start byte followed by identifier bytes.
pub open spec fn is_ident_seq(t: Seq<u8>) -> bool {
    t.len() > 0 && is_ident_start(t[0]) && (forall|i: int|
        1 <= i < t.len() ==> is_ident_char(#[trigger] t[i]))
}

/// `t` begins with the bytes of `pre`.
pub open spec fn seq_starts_with(t: Seq<u8>, pre: Seq<u8>) -> bool {
    t.len() >= pre.len() && (forall|i: int| 0 <= i < pre.len() ==> #[trigger] t[i] == pre[i])
}

pub open spec fn pre_reg() -> Seq<u8> {
    seq![114u8, 101u8, 103u8, 46u8]
}

pub open spec fn pre_str() -> Seq<u8> {
    seq![115u8, 116u8, 114u8, 46u8]
}

pub open spec fn pre_pos() -> Seq<u8> {
    seq![112u8, 111u8, 115u8, 46u8]
}

pub open spec fn pre_g() -> Seq<u8> {
    seq![103u8, 46u8]
}

pub open spec fn pre_anim() -> Seq<u8> {
    seq![97u8, 110u8, 105u8, 109u8, 46u8]
}

pub open spec fn pre_fac() -> Seq<u8> {
    seq![102u8, 97u8, 99u8, 46u8]
}

pub open spec fn pre_id() -> Seq<u8> {
    seq![105u8, 100u8, 46u8]
}

pub open spec fn pre_itm() -> Seq<u8> {
    seq![105u8, 116u8, 109u8, 46u8]
}

pub open spec fn pre_icon() -> Seq<u8> {
    seq![105u8, 99u8, 111u8, 110u8, 46u8]
}

pub open spec fn pre_menu() -> Seq<u8> {
    seq![109u8, 101u8, 110u8, 117u8, 46u8]
}

pub open spec fn pre_mesh() -> Seq<u8> {
    seq![109u8, 101u8, 115u8, 104u8, 46u8]
}

pub open spec fn pre_mst() -> Seq<u8> {
    seq![109u8, 115u8, 116u8, 46u8]
}

pub open spec fn pre_psys() -> Seq<u8> {
    seq![112u8, 115u8, 121u8, 115u8, 46u8]
}

pub open spec fn pre_p() -> Seq<u8> {
    seq![112u8, 46u8]
}

pub open spec fn pre_pt() -> Seq<u8> {
    seq![112u8, 116u8, 46u8]
}

pub open spec fn pre_pfx() -> Seq<u8> {
    seq![112u8, 102u8, 120u8, 46u8]
}

pub open spec fn pre_prsnt() -> Seq<u8> {
    seq![112u8, 114u8, 115u8, 110u8, 116u8, 46u8]
}

pub open spec fn pre_qst() -> Seq<u8> {
    seq![113u8, 115u8, 116u8, 46u8]
}

pub open spec fn pre_spr() -> Seq<u8> {
    seq![115u8, 112u8, 114u8, 46u8]
}

pub open spec fn pre_scn() -> Seq<u8> {
    seq![115u8, 99u8, 110u8, 46u8]
}

pub open spec fn pre_script() -> Seq<u8> {
    seq![115u8, 99u8, 114u8, 105u8, 112u8, 116u8, 46u8]
}

pub open spec fn pre_skl() -> Seq<u8> {
    seq![115u8, 107u8, 108u8, 46u8]
}

pub open spec fn pre_snd() -> Seq<u8> {
    seq![115u8, 110u8, 100u8, 46u8]
}

pub open spec fn pre_tableau() -> Seq<u8> {
    seq![116u8, 97u8, 98u8, 108u8, 101u8, 97u8, 117u8, 46u8]
}

pub open spec fn pre_trp() -> Seq<u8> {
    seq![116u8, 114u8, 112u8, 46u8]
}

/// The token begins with the given prefix and continues with an
/// identifier: the shared shape of the typed-identifier forms.
pub open spec fn typed_token(t: Seq<u8>, pre: Seq<u8>) -> bool {
    &&& t.len() > pre.len()
    &&& seq_starts_with(t, pre)
    &&& is_ident_seq(t.subrange(pre.len() as int, t.len() as int))
}

/// `reg.` followed by one or more digits.
pub open spec fn reg_token(t: Seq<u8>) -> bool {
    t.len() > 4 && seq_starts_with(t, pre_reg()) && all_digits(t.subrange(4, t.len() as int))
}

/// `str.` followed by one or more digits.
pub open spec fn str_reg_token(t: Seq<u8>) -> bool {
    t.len() > 4 && seq_starts_with(t, pre_str()) && all_digits(t.subrange(4, t.len() as int))
}

/// `pos.` followed by one or more digits.
pub open spec fn pos_reg_token(t: Seq<u8>) -> bool {
    t.len() > 4 && seq_starts_with(t, pre_pos()) && all_digits(t.subrange(4, t.len() as int))
}

/// `:` followed by an identifier.
pub open spec fn local_var_token(t: Seq<u8>) -> bool {
    t.len() >= 2 && t[0] == 58 && is_ident_seq(t.subrange(1, t.len() as int))
}

/// `$` followed by an identifier.
pub open spec fn global_var_token(t: Seq<u8>) -> bool {
    t.len() >= 2 && t[0] == 36 && is_ident_seq(t.subrange(1, t.len() as int))
}

/// `g.` followed by an identifier.
pub open spec fn auto_global_token(t: Seq<u8>) -> bool {
    typed_token(t, pre_g())
}

/// Any of the 21 typed-identifier forms.
pub open spec fn is_typed_id_token(t: Seq<u8>) -> bool {
    ||| typed_token(t, pre_anim())
    ||| typed_token(t, pre_fac())
    ||| typed_token(t, pre_id())
    ||| typed_token(t, pre_itm())
    ||| typed_token(t, pre_icon())
    ||| typed_token(t, pre_menu())
    ||| typed_token(t, pre_mesh())
    ||| typed_token(t, pre_mst())
    ||| typed_token(t, pre_psys())
    ||| typed_token(t, pre_p())
    ||| typed_token(t, pre_pt())
    ||| typed_token(t, pre_pfx())
    ||| typed_token(t, pre_prsnt())
    ||| typed_token(t, pre_qst())
    ||| typed_token(t, pre_spr())
    ||| typed_token(t, pre_scn())
    ||| typed_token(t, pre_script())
    ||| typed_token(t, pre_skl())
    ||| typed_token(t, pre_snd())
    ||| typed_token(t, pre_str())
    ||| typed_token(t, pre_tableau())
    ||| typed_token(t, pre_trp())
}

/// A token that the grammar accepts in a parameter position,
/// whatever its numeric value.
pub open spec fn wf_param_token(t: Seq<u8>) -> bool {
    ||| is_number_token(t)
    ||| reg_token(t)
    ||| str_reg_token(t)
    ||| pos_reg_token(t)
    ||| local_var_token(t)
    ||| global_var_token(t)
    ||| auto_global_token(t)
    ||| is_typed_id_token(t)
    ||| is_ident_seq(t)
}

/// The secondary semantic checks: a numeric literal must fit a
/// signed 64-bit integer, a register code must fit eight bits.
pub open spec fn token_value_ok(t: Seq<u8>) -> bool {
    &&& (is_number_token(t) ==> i64::MIN <= number_val(t) <= i64::MAX)
    &&& (reg_token(t) ==> dec_val(t.subrange(4, t.len() as int)) <= 255)
    &&& (str_reg_token(t) ==> dec_val(t.subrange(4, t.len() as int)) <= 255)
    &&& (pos_reg_token(t) ==> dec_val(t.subrange(4, t.len() as int)) <= 255)
}

/// Which typed-identifier variant a token of the given shape denotes.
pub open spec fn typed_id_matches(t: Seq<u8>, id: StatementParameterId) -> bool {
    match id {
        StatementParameterId::AnimationId(name) => typed_token(t, pre_anim()) && name@
            == ascii_chars(t.subrange(5, t.len() as int)),
        StatementParameterId::FactionId(name) => typed_token(t, pre_fac()) && name@ == ascii_chars(
            t.subrange(4, t.len() as int),
        ),
        StatementParameterId::InfoPageId(name) => typed_token(t, pre_id()) && name@ == ascii_chars(
            t.subrange(3, t.len() as int),
        ),
        StatementParameterId::ItemId(name) => typed_token(t, pre_itm()) && name@ == ascii_chars(
            t.subrange(4, t.len() as int),
        ),
        StatementParameterId::MapIconId(name) => typed_token(t, pre_icon()) && name@ == ascii_chars(
            t.subrange(5, t.len() as int),
        ),
        StatementParameterId::GameMenuId(name) => typed_token(t, pre_menu()) && name@
            == ascii_chars(t.subrange(5, t.len() as int)),
        StatementParameterId::MeshId(name) => typed_token(t, pre_mesh()) && name@ == ascii_chars(
            t.subrange(5, t.len() as int),
        ),
        StatementParameterId::MissionTemplateId(name) => typed_token(t, pre_mst()) && name@
            == ascii_chars(t.subrange(4, t.len() as int)),
        StatementParameterId::ParticleSystemId(name) => typed_token(t, pre_psys()) && name@
            == ascii_chars(t.subrange(5, t.len() as int)),
        StatementParameterId::PartyId(name) => typed_token(t, pre_p()) && name@ == ascii_chars(
            t.subrange(2, t.len() as int),
        ),
        StatementParameterId::PartyTemplateId(name) => typed_token(t, pre_pt()) && name@
            == ascii_chars(t.subrange(3, t.len() as int)),
        StatementParameterId::PostfxId(name) => typed_token(t, pre_pfx()) && name@ == ascii_chars(
            t.subrange(4, t.len() as int),
        ),
        StatementParameterId::PresentationId(name) => typed_token(t, pre_prsnt()) && name@
            == ascii_chars(t.subrange(6, t.len() as int)),
        StatementParameterId::QuestId(name) => typed_token(t, pre_qst()) && name@ == ascii_chars(
            t.subrange(4, t.len() as int),
        ),
        StatementParameterId::ScenePropId(name) => typed_token(t, pre_spr()) && name@
            == ascii_chars(t.subrange(4, t.len() as int)),
        StatementParameterId::SceneId(name) => typed_token(t, pre_scn()) && name@ == ascii_chars(
            t.subrange(4, t.len() as int),
        ),
        StatementParameterId::ScriptId(name) => typed_token(t, pre_script()) && name@
            == ascii_chars(t.subrange(7, t.len() as int)),
        StatementParameterId::SkillId(name) => typed_token(t, pre_skl()) && name@ == ascii_chars(
            t.subrange(4, t.len() as int),
        ),
        StatementParameterId::SoundId(name) => typed_token(t, pre_snd()) && name@ == ascii_chars(
            t.subrange(4, t.len() as int),
        ),
        StatementParameterId::StringId(name) => typed_token(t, pre_str()) && name@ == ascii_chars(
            t.subrange(4, t.len() as int),
        ),
        StatementParameterId::TableauMaterialId(name) => typed_token(t, pre_tableau()) && name@
            == ascii_chars(t.subrange(8, t.len() as int)),
        StatementParameterId::TroopId(name) => typed_token(t, pre_trp()) && name@ == ascii_chars(
            t.subrange(4, t.len() as int),
        ),
    }
}

/// Which parameter a token denotes: the relation every successful
/// classification satisfies.
pub open spec fn token_param(t: Seq<u8>, p: StatementParameter) -> bool {
    match p {
        StatementParameter::Number(n) => is_number_token(t) && n == number_val(t),
        StatementParameter::Register(c) => reg_token(t) && c == dec_val(
            t.subrange(4, t.len() as int),
        ),
        StatementParameter::StringRegister(c) => str_reg_token(t) && c == dec_val(
            t.subrange(4, t.len() as int),
        ),
        StatementParameter::PositionRegister(c) => pos_reg_token(t) && c == dec_val(
            t.subrange(4, t.len() as int),
        ),
        StatementParameter::LocalVariable(name) => local_var_token(t) && name@ == ascii_chars(
            t.subrange(1, t.len() as int),
        ),
        StatementParameter::GlobalVariable(name) => global_var_token(t) && name@ == ascii_chars(
            t.subrange(1, t.len() as int),
        ),
        StatementParameter::AutoPrefixedGlobalVariable(name) => auto_global_token(t) && name@
            == ascii_chars(t.subrange(2, t.len() as int)),
        StatementParameter::StatementParamId(id) => typed_id_matches(t, id),
        StatementParameter::Identifier(name) => is_ident_seq(t) && name@ == ascii_chars(t),
    }
}

/// True exactly when the bytes from `from` on are one or more digits.
fn check_digits(t: &Vec<u8>, from: usize) -> (b: bool)
    requires
        from <= t@.len(),
    ensures
        b == (from < t@.len() && all_digits(t@.subrange(from as int, t@.len() as int))),
{
    if from == t.len() {
        return false;
    }
    let ghost rest: Seq<u8> = t@.subrange(from as int, t@.len() as int);
    let mut i: usize = from;
    while i < t.len()
        invariant
            from <= i <= t@.len(),
            rest == t@.subrange(from as int, t@.len() as int),
            forall|j: int| from <= j < i ==> is_digit(#[trigger] t@[j]),
        decreases t@.len() - i,
    {
        let d: u8 = t[i];
        if d < 48 || d > 57 {
            proof {
                assert(rest[i - from] == t@[i as int]);
            }
            return false;
        }
        i = i + 1;
    }
    proof {
        assert(forall|j: int| 0 <= j < rest.len() ==> rest[j] == t@[from + j]);
    }
    true
}

/// True exactly when the bytes from `from` on form an identifier.
pub(crate) fn check_ident(t: &Vec<u8>, from: usize) -> (b: bool)
    requires
        from <= t@.len(),
    ensures
        b == is_ident_seq(t@.subrange(from as int, t@.len() as int)),
{
    let ghost rest: Seq<u8> = t@.subrange(from as int, t@.len() as int);
    if from == t.len() {
        return false;
    }
    let b0: u8 = t[from];
    let start_ok: bool = (b0 >= 65 && b0 <= 90) || (b0 >= 97 && b0 <= 122) || b0 == 95;
    if !start_ok {
        proof {
            assert(rest[0] == t@[from as int]);
        }
        return false;
    }
    let mut i: usize = from + 1;
    while i < t.len()
        invariant
            from < i <= t@.len(),
            rest == t@.subrange(from as int, t@.len() as int),
            is_ident_start(t@[from as int]),
            forall|j: int| from < j < i ==> is_ident_char(#[trigger] t@[j]),
        decreases t@.len() - i,
    {
        let d: u8 = t[i];
        let ok: bool = (d >= 65 && d <= 90) || (d >= 97 && d <= 122) || d == 95 || (d >= 48 && d
            <= 57);
        if !ok {
            proof {
                assert(rest[i - from] == t@[i as int]);
            }
            return false;
        }
        i = i + 1;
    }
    proof {
        assert(rest[0] == t@[from as int]);
        assert(forall|j: int| 1 <= j < rest.len() ==> rest[j] == t@[from + j]);
    }
    true
}

/// True exactly when the token is a numeric literal.
fn check_number(t: &Vec<u8>) -> (b: bool)
    ensures
        b == is_number_token(t@),
{
    if t.len() == 0 {
        return false;
    }
    let b0: u8 = t[0];
    if b0 == 45 {
        let r = check_digits(t, 1);
        proof {
            if t@.len() > 1 {
                assert(t@.subrange(1, t@.len() as int).len() > 0);
            }
        }
        r && t.len() > 1
    } else {
        proof {
            assert(t@.subrange(0, t@.len() as int) =~= t@);
        }
        check_digits(t, 0)
    }
}

/// True exactly when the token starts with the given prefix.
fn bytes_match(t: &Vec<u8>, pre: &Vec<u8>) -> (b: bool)
    ensures
        b == seq_starts_with(t@, pre@),
{
    if t.len() < pre.len() {
        return false;
    }
    let mut i: usize = 0;
    while i < pre.len()
        invariant
            0 <= i <= pre@.len() <= t@.len(),
            forall|j: int| 0 <= j < i ==> #[trigger] t@[j] == pre@[j],
        decreases pre@.len() - i,
    {
        if t[i] != pre[i] {
            return false;
        }
        i = i + 1;
    }
    true
}

/// Extracts the identifier written after a prefix of length `from`.
pub(crate) fn ident_rest(t: &Vec<u8>, from: usize) -> (r: String)
    requires
        from <= t@.len(),
        is_ident_seq(t@.subrange(from as int, t@.len() as int)),
    ensures
        r@ == ascii_chars(t@.subrange(from as int, t@.len() as int)),
{
    proof {
        let rest = t@.subrange(from as int, t@.len() as int);
        assert forall|i: int| from <= i < t@.len() implies #[trigger] t@[i] < 128 by {
            assert(rest[i - from] == t@[i]);
            if i == from {
                assert(is_ident_start(rest[0]));
            } else {
                assert(is_ident_char(rest[i - from]));
            }
        }
    }
    ascii_to_string(t, from)
}

/// Builds the source error the AST builder attaches to a token that
/// matched the grammar but failed a semantic validation.
fn source_error(line: usize, col: usize, description: &str) -> (e: Error)
    ensures
        e matches Error::SourceError(se) && se.location == (line, col) && se.description@
            == description@,
{
    Error::SourceError(SourceError { location: (line, col), description: description.to_owned() })
}

/// Converts one parameter token into its typed parameter, or reports
/// why it cannot be. The result is `Ok` exactly when the token has
/// one of the recognised shapes and its numeric value, if any, is in
/// range; a shape fault is a grammar diagnostic, a value fault is a
/// source error at the token's own line and column.
pub fn classify_parameter(t: &Vec<u8>, line: usize, col: usize) -> (r: Result<
    StatementParameter,
    Error,
>)
    ensures
        (r is Ok) == (wf_param_token(t@) && token_value_ok(t@)),
        match r {
            Ok(p) => token_param(t@, p),
            Err(e) => match e {
                Error::GrammarError(_) => !wf_param_token(t@),
                Error::SourceError(se) => {
                    &&& wf_param_token(t@)
                    &&& !token_value_ok(t@)
                    &&& se.location == (line, col)
                    &&& (is_number_token(t@) ==> se.description@ == "Invalid parameter number."@)
                    &&& (reg_token(t@) ==> se.description@ == "Invalid register."@)
                    &&& (str_reg_token(t@) ==> se.description@ == "Invalid string register."@)
                    &&& (pos_reg_token(t@) ==> se.description@ == "Invalid position register."@)
                },
                Error::LoadError => false,
            },
        },
{
    if t.len() == 0 {
        return Err(Error::GrammarError(positioned_message("empty parameter token", line, col)));
    }
    let b0: u8 = t[0];
    if b0 == 58 {
        if check_ident(t, 1) {
            return Ok(StatementParameter::LocalVariable(ident_rest(t, 1)));
        } else {
            return Err(Error::GrammarError(positioned_message("malformed local variable", line, col)));
        }
    }
    if b0 == 36 {
        if check_ident(t, 1) {
            return Ok(StatementParameter::GlobalVariable(ident_rest(t, 1)));
        } else {
            return Err(Error::GrammarError(positioned_message("malformed global variable", line, col)));
        }
    }
    if check_number(t) {
        match parse_i64_token(t) {
            Some(n) => {
                return Ok(StatementParameter::Number(n));
            },
            None => {
                return Err(source_error(line, col, "Invalid parameter number."));
            },
        }
    }
    let pre: Vec<u8> = vec![114u8, 101u8, 103u8, 46u8];
    if bytes_match(t, &pre) {
        proof {
            assert(t@[0] == 114 && t@[1] == 101 && t@[2] == 103 && t@[3] == 46);
        }
        if check_digits(t, 4) {
            match parse_u8_digits(t, 4) {
                Some(c) => {
                    return Ok(StatementParameter::Register(c));
                },
                None => {
                    return Err(source_error(line, col, "Invalid register."));
                },
            }
        } else {
            return Err(Error::GrammarError(positioned_message("malformed register", line, col)));
        }
    }
    let pre: Vec<u8> = vec![115u8, 116u8, 114u8, 46u8];
    if bytes_match(t, &pre) {
        proof {
            assert(t@[0] == 115 && t@[1] == 116 && t@[2] == 114 && t@[3] == 46);
        }
        if check_digits(t, 4) {
            match parse_u8_digits(t, 4) {
                Some(c) => {
                    return Ok(StatementParameter::StringRegister(c));
                },
                None => {
                    return Err(source_error(line, col, "Invalid string register."));
                },
            }
        } else if check_ident(t, 4) {
            return Ok(
                StatementParameter::StatementParamId(
                    StatementParameterId::StringId(ident_rest(t, 4)),
                ),
            );
        } else {
            return Err(Error::GrammarError(positioned_message("malformed string reference", line, col)));
        }
    }
    let pre: Vec<u8> = vec![112u8, 111u8, 115u8, 46u8];
    if bytes_match(t, &pre) {
        proof {
            assert(t@[0] == 112 && t@[1] == 111 && t@[2] == 115 && t@[3] == 46);
        }
        if check_digits(t, 4) {
            match parse_u8_digits(t, 4) {
                Some(c) => {
                    return Ok(StatementParameter::PositionRegister(c));
                },
                None => {
                    return Err(source_error(line, col, "Invalid position register."));
                },
            }
        } else {
            return Err(Error::GrammarError(positioned_message("malformed position register", line, col)));
        }
    }
    let pre: Vec<u8> = vec![103u8, 46u8];
    if bytes_match(t, &pre) {
        proof {
            assert(t@[0] == 103 && t@[1] == 46);
        }
        if check_ident(t, 2) {
            return Ok(StatementParameter::AutoPrefixedGlobalVariable(ident_rest(t, 2)));
        } else {
            return Err(Error::GrammarError(positioned_message("malformed global reference", line, col)));
        }
    }
    match classify_typed_id(t) {
        Ok(id) => {
            return Ok(StatementParameter::StatementParamId(id));
        },
        Err(matched_prefix) => {
            if matched_prefix {
                return Err(Error::GrammarError(positioned_message("malformed typed identifier", line, col)));
            }
        },
    }
    proof {
        assert(t@.subrange(0, t@.len() as int) =~= t@);
    }
    if check_ident(t, 0) {
        return Ok(StatementParameter::Identifier(ident_rest(t, 0)));
    }
    Err(Error::GrammarError(positioned_message("unrecognized parameter token", line, col)))
}

/// Tries the typed-identifier prefixes that no earlier token shape
/// shares. On `Err`, says whether some prefix matched while the rest
/// was not an identifier; in that case no token shape fits at all.
fn classify_typed_id(t: &Vec<u8>) -> (r: Result<StatementParameterId, bool>)
    requires
        t@.len() > 0,
        !is_number_token(t@),
        t@[0] != 58,
        t@[0] != 36,
        !seq_starts_with(t@, pre_reg()),
        !seq_starts_with(t@, pre_str()),
        !seq_starts_with(t@, pre_pos()),
        !seq_starts_with(t@, pre_g()),
    ensures
        match r {
            Ok(id) => typed_id_matches(t@, id) && wf_param_token(t@) && token_value_ok(t@),
            Err(matched) => {
                &&& !is_typed_id_token(t@)
                &&& matched ==> !wf_param_token(t@)
            },
        },
{
    let pre: Vec<u8> = vec![97u8, 110u8, 105u8, 109u8, 46u8];
    if bytes_match(t, &pre) {
        proof {
            assert(t@[0] == 97 && t@[1] == 110 && t@[2] == 105 && t@[3] == 109 && t@[4] == 46);
        }
        if check_ident(t, 5) {
            return Ok(StatementParameterId::AnimationId(ident_rest(t, 5)));
        }
        return Err(true);
    }
    let pre: Vec<u8> = vec![102u8, 97u8, 99u8, 46u8];
    if bytes_match(t, &pre) {
        proof {
            assert(t@[0] == 102 && t@[1] == 97 && t@[2] == 99 && t@[3] == 46);
        }
        if check_ident(t, 4) {
            return Ok(StatementParameterId::FactionId(ident_rest(t, 4)));
        }
        return Err(true);
    }
    let pre: Vec<u8> = vec![105u8, 100u8, 46u8];
    if bytes_match(t, &pre) {
        proof {
            assert(t@[0] == 105 && t@[1] == 100 && t@[2] == 46);
        }
        if check_ident(t, 3) {
            return Ok(StatementParameterId::InfoPageId(ident_rest(t, 3)));
        }
        return Err(true);
    }
    let pre: Vec<u8> = vec![105u8, 116u8, 109u8, 46u8];
    if bytes_match(t, &pre) {
        proof {
            assert(t@[0] == 105 && t@[1] == 116 && t@[2] == 109 && t@[3] == 46);
        }
        if check_ident(t, 4) {
            return Ok(StatementParameterId::ItemId(ident_rest(t, 4)));
        }
        return Err(true);
    }
    let pre: Vec<u8> = vec![105u8, 99u8, 111u8, 110u8, 46u8];
    if bytes_match(t, &pre) {
        proof {
            assert(t@[0] == 105 && t@[1] == 99 && t@[2] == 111 && t@[3] == 110 && t@[4] == 46);
        }
        if check_ident(t, 5) {
            return Ok(StatementParameterId::MapIconId(ident_rest(t, 5)));
        }
        return Err(true);
    }
    let pre: Vec<u8> = vec![109u8, 101u8, 110u8, 117u8, 46u8];
    if bytes_match(t, &pre) {
        proof {
            assert(t@[0] == 109 && t@[1] == 101 && t@[2] == 110 && t@[3] == 117 && t@[4] == 46);
        }
        if check_ident(t, 5) {
            return Ok(StatementParameterId::GameMenuId(ident_rest(t, 5)));
        }
        return Err(true);
    }
    let pre: Vec<u8> = vec![109u8, 101u8, 115u8, 104u8, 46u8];
    if bytes_match(t, &pre) {
        proof {
            assert(t@[0] == 109 && t@[1] == 101 && t@[2] == 115 && t@[3] == 104 && t@[4] == 46);
        }
        if check_ident(t, 5) {
            return Ok(StatementParameterId::MeshId(ident_rest(t, 5)));
        }
        return Err(true);
    }
    let pre: Vec<u8> = vec![109u8, 115u8, 116u8, 46u8];
    if bytes_match(t, &pre) {
        proof {
            assert(t@[0] == 109 && t@[1] == 115 && t@[2] == 116 && t@[3] == 46);
        }
        if check_ident(t, 4) {
            return Ok(StatementParameterId::MissionTemplateId(ident_rest(t, 4)));
        }
        return Err(true);
    }
    let pre: Vec<u8> = vec![112u8, 115u8, 121u8, 115u8, 46u8];
    if bytes_match(t, &pre) {
        proof {
            assert(t@[0] == 112 && t@[1] == 115 && t@[2] == 121 && t@[3] == 115 && t@[4] == 46);
        }
        if check_ident(t, 5) {
            return Ok(StatementParameterId::ParticleSystemId(ident_rest(t, 5)));
        }
        return Err(true);
    }
    let pre: Vec<u8> = vec![112u8, 46u8];
    if bytes_match(t, &pre) {
        proof {
            assert(t@[0] == 112 && t@[1] == 46);
        }
        if check_ident(t, 2) {
            return Ok(StatementParameterId::PartyId(ident_rest(t, 2)));
        }
        return Err(true);
    }
    let pre: Vec<u8> = vec![112u8, 116u8, 46u8];
    if bytes_match(t, &pre) {
        proof {
            assert(t@[0] == 112 && t@[1] == 116 && t@[2] == 46);
        }
        if check_ident(t, 3) {
            return Ok(StatementParameterId::PartyTemplateId(ident_rest(t, 3)));
        }
        return Err(true);
    }
    let pre: Vec<u8> = vec![112u8, 102u8, 120u8, 46u8];
    if bytes_match(t, &pre) {
        proof {
            assert(t@[0] == 112 && t@[1] == 102 && t@[2] == 120 && t@[3] == 46);
        }
        if check_ident(t, 4) {
            return Ok(StatementParameterId::PostfxId(ident_rest(t, 4)));
        }
        return Err(true);
    }
    let pre: Vec<u8> = vec![112u8, 114u8, 115u8, 110u8, 116u8, 46u8];
    if bytes_match(t, &pre) {
        proof {
            assert(t@[0] == 112 && t@[1] == 114 && t@[2] == 115 && t@[3] == 110 && t@[4] == 116
                && t@[5] == 46);
        }
        if check_ident(t, 6) {
            return Ok(StatementParameterId::PresentationId(ident_rest(t, 6)));
        }
        return Err(true);
    }
    let pre: Vec<u8> = vec![113u8, 115u8, 116u8, 46u8];
    if bytes_match(t, &pre) {
        proof {
            assert(t@[0] == 113 && t@[1] == 115 && t@[2] == 116 && t@[3] == 46);
        }
        if check_ident(t, 4) {
            return Ok(StatementParameterId::QuestId(ident_rest(t, 4)));
        }
        return Err(true);
    }
    let pre: Vec<u8> = vec![115u8, 112u8, 114u8, 46u8];
    if bytes_match(t, &pre) {
        proof {
            assert(t@[0] == 115 && t@[1] == 112 && t@[2] == 114 && t@[3] == 46);
        }
        if check_ident(t, 4) {
            return Ok(StatementParameterId::ScenePropId(ident_rest(t, 4)));
        }
        return Err(true);
    }
    let pre: Vec<u8> = vec![115u8, 99u8, 114u8, 105u8, 112u8, 116u8, 46u8];
    if bytes_match(t, &pre) {
        proof {
            assert(t@[0] == 115 && t@[1] == 99 && t@[2] == 114 && t@[3] == 105 && t@[4] == 112
                && t@[5] == 116 && t@[6] == 46);
        }
        if check_ident(t, 7) {
            return Ok(StatementParameterId::ScriptId(ident_rest(t, 7)));
        }
        return Err(true);
    }
    let pre: Vec<u8> = vec![115u8, 99u8, 110u8, 46u8];
    if bytes_match(t, &pre) {
        proof {
            assert(t@[0] == 115 && t@[1] == 99 && t@[2] == 110 && t@[3] == 46);
        }
        if check_ident(t, 4) {
            return Ok(StatementParameterId::SceneId(ident_rest(t, 4)));
        }
        return Err(true);
    }
    let pre: Vec<u8> = vec![115u8, 107u8, 108u8, 46u8];
    if bytes_match(t, &pre) {
        proof {
            assert(t@[0] == 115 && t@[1] == 107 && t@[2] == 108 && t@[3] == 46);
        }
        if check_ident(t, 4) {
            return Ok(StatementParameterId::SkillId(ident_rest(t, 4)));
        }
        return Err(true);
    }
    let pre: Vec<u8> = vec![115u8, 110u8, 100u8, 46u8];
    if bytes_match(t, &pre) {
        proof {
            assert(t@[0] == 115 && t@[1] == 110 && t@[2] == 100 && t@[3] == 46);
        }
        if check_ident(t, 4) {
            return Ok(StatementParameterId::SoundId(ident_rest(t, 4)));
        }
        return Err(true);
    }
    let pre: Vec<u8> = vec![116u8, 97u8, 98u8, 108u8, 101u8, 97u8, 117u8, 46u8];
    if bytes_match(t, &pre) {
        proof {
            assert(t@[0] == 116 && t@[1] == 97 && t@[2] == 98 && t@[3] == 108 && t@[4] == 101
                && t@[5] == 97 && t@[6] == 117 && t@[7] == 46);
        }
        if check_ident(t, 8) {
            return Ok(StatementParameterId::TableauMaterialId(ident_rest(t, 8)));
        }
        return Err(true);
    }
    let pre: Vec<u8> = vec![116u8, 114u8, 112u8, 46u8];
    if bytes_match(t, &pre) {
        proof {
            assert(t@[0] == 116 && t@[1] == 114 && t@[2] == 112 && t@[3] == 46);
        }
        if check_ident(t, 4) {
            return Ok(StatementParameterId::TroopId(ident_rest(t, 4)));
        }
        return Err(true);
    }
    Err(false)
}

} // verus!
