use mbscript::ast::{register_key, StatementParameter, StatementParameterId};
use mbscript::errors::{Error, SourceError};

#[test]
fn variable_rendering() {
    let local = StatementParameter::LocalVariable("foo".to_string());
    assert_eq!(local.rendered(), Some(":foo".to_string()));
    let global = StatementParameter::GlobalVariable("foo".to_string());
    assert_eq!(global.rendered(), Some("$foo".to_string()));
    let auto = StatementParameter::AutoPrefixedGlobalVariable("player_luck".to_string());
    assert_eq!(auto.rendered(), Some("$g_player_luck".to_string()));
}

#[test]
fn numeric_parameters_render_no_string() {
    assert_eq!(StatementParameter::Number(7).rendered(), None);
    assert_eq!(StatementParameter::Register(7).rendered(), None);
    assert_eq!(StatementParameter::StringRegister(7).rendered(), None);
    assert_eq!(StatementParameter::PositionRegister(7).rendered(), None);
    assert_eq!(
        StatementParameter::Identifier("x".to_string()).rendered(),
        None
    );
}

#[test]
fn typed_identifier_rendering() {
    assert_eq!(
        StatementParameterId::PartyId("main_party".to_string()).render(),
        "p_main_party"
    );
    assert_eq!(
        StatementParameterId::AnimationId("run".to_string()).render(),
        "anim_run"
    );
    assert_eq!(
        StatementParameterId::TroopId("player".to_string()).render(),
        "trp_player"
    );
    assert_eq!(
        StatementParameterId::TableauMaterialId("coat".to_string()).render(),
        "tableau_coat"
    );
    assert_eq!(
        StatementParameterId::StringId("hello".to_string()).render(),
        "str_hello"
    );
    assert_eq!(
        StatementParameterId::InfoPageId("notes".to_string()).render(),
        "id_notes"
    );
}

#[test]
fn register_lookup_keys() {
    assert_eq!(register_key(0), "reg0");
    assert_eq!(register_key(7), "reg7");
    assert_eq!(register_key(42), "reg42");
    assert_eq!(register_key(255), "reg255");
}

#[test]
fn source_error_rendering() {
    let err = SourceError {
        location: (3, 15),
        description: "Invalid register.".to_string(),
    };
    assert_eq!(err.to_string(), "Error 'Invalid register.' at Line: 3, Col: 15");
    let err = Error::SourceError(err);
    assert_eq!(err.to_string(), "Error 'Invalid register.' at Line: 3, Col: 15");
}

#[test]
fn grammar_error_rendering() {
    let err = Error::GrammarError("unterminated block comment".to_string());
    assert_eq!(err.to_string(), "Parse error: unterminated block comment");
}
