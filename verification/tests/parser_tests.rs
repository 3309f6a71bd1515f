use mbscript::ast::{StatementParameter, StatementParameterId};
use mbscript::errors::Error;
use mbscript::parser::parse;

const BASIC_SRC: &str = r#"
        /* This a test */

        faction_set_slot fac.player_supporters_faction slot_faction_state sfs_inactive;

        assign g.player_luck 200;
        assign g.player_luck 200;

        troop_set_slot trp.player slot_troop_occupation slto_kingdom_hero;

        store_random_in_range :starting_training_ground
            training_grounds_begin training_grounds_end;

        party_relocate_near_party p.main_party :training_ground 3;

        str_store_toop_name str.5 trp.player;

        party_set_name p.main_party str.5;

        call_script script.update_party_creation_random_limits;

        assign g.player_party_icon -1;
    "#;

#[test]
pub fn basic_test() {
    let _script = parse(BASIC_SRC, "basic").unwrap();
}

#[test]
fn basic_statement_count() {
    let script = parse(BASIC_SRC, "basic").unwrap();
    assert_eq!(script.statements.len(), 10);
    assert_eq!(script.name, "basic");
}

#[test]
fn statement_count_matches_separators() {
    let script = parse("a 1; b 2; c 3;", "three").unwrap();
    assert_eq!(script.statements.len(), 3);
    let script = parse("", "empty").unwrap();
    assert_eq!(script.statements.len(), 0);
    let script = parse("   /* nothing here ; at all */  ", "only_comment").unwrap();
    assert_eq!(script.statements.len(), 0);
}

#[test]
fn number_round_trip() {
    let script = parse("assign 200;", "n").unwrap();
    assert_eq!(
        script.statements[0].parameters,
        vec![StatementParameter::Number(200)]
    );
    let script = parse("assign -1;", "n").unwrap();
    assert_eq!(
        script.statements[0].parameters,
        vec![StatementParameter::Number(-1)]
    );
    let script = parse("assign 9223372036854775807;", "n").unwrap();
    assert_eq!(
        script.statements[0].parameters,
        vec![StatementParameter::Number(i64::MAX)]
    );
    let script = parse("assign -9223372036854775808;", "n").unwrap();
    assert_eq!(
        script.statements[0].parameters,
        vec![StatementParameter::Number(i64::MIN)]
    );
    let script = parse("assign 0;", "n").unwrap();
    assert_eq!(
        script.statements[0].parameters,
        vec![StatementParameter::Number(0)]
    );
}

#[test]
fn number_overflow_is_source_error() {
    let err = parse("assign 9223372036854775808;", "n").unwrap_err();
    match err {
        Error::SourceError(se) => {
            assert_eq!(se.description, "Invalid parameter number.");
            assert_eq!(se.location, (1, 8));
        }
        _ => panic!("expected a source error"),
    }
}

#[test]
fn register_shapes_choose_variants() {
    let script = parse("op reg.3 str.3 pos.3;", "regs").unwrap();
    assert_eq!(script.statements[0].operation, "op");
    assert_eq!(
        script.statements[0].parameters,
        vec![
            StatementParameter::Register(3),
            StatementParameter::StringRegister(3),
            StatementParameter::PositionRegister(3),
        ]
    );
}

#[test]
fn register_out_of_range_reg() {
    let err = parse("op reg.256;", "regs").unwrap_err();
    match err {
        Error::SourceError(se) => {
            assert_eq!(se.description, "Invalid register.");
            assert_eq!(se.location, (1, 4));
        }
        _ => panic!("expected a source error"),
    }
}

#[test]
fn register_out_of_range_str() {
    let err = parse("op str.256;", "regs").unwrap_err();
    match err {
        Error::SourceError(se) => {
            assert_eq!(se.description, "Invalid string register.");
            assert_eq!(se.location, (1, 4));
        }
        _ => panic!("expected a source error"),
    }
}

#[test]
fn register_out_of_range_pos() {
    let err = parse("op pos.256;", "regs").unwrap_err();
    match err {
        Error::SourceError(se) => {
            assert_eq!(se.description, "Invalid position register.");
            assert_eq!(se.location, (1, 4));
        }
        _ => panic!("expected a source error"),
    }
}

#[test]
fn error_position_counts_lines() {
    let err = parse("op 1;\n/* skip ; me */ op2 reg.999;", "pos").unwrap_err();
    match err {
        Error::SourceError(se) => {
            assert_eq!(se.description, "Invalid register.");
            assert_eq!(se.location, (2, 21));
        }
        _ => panic!("expected a source error"),
    }
}

#[test]
fn variable_forms() {
    let script = parse("op :foo $foo g.foo;", "vars").unwrap();
    assert_eq!(
        script.statements[0].parameters,
        vec![
            StatementParameter::LocalVariable("foo".to_string()),
            StatementParameter::GlobalVariable("foo".to_string()),
            StatementParameter::AutoPrefixedGlobalVariable("foo".to_string()),
        ]
    );
}

#[test]
fn unknown_identifier_still_parses() {
    let script = parse("op some_name_nobody_defined;", "idents").unwrap();
    assert_eq!(
        script.statements[0].parameters,
        vec![StatementParameter::Identifier(
            "some_name_nobody_defined".to_string()
        )]
    );
}

#[test]
fn two_identical_assignments() {
    let script = parse("assign g.player_luck 200;\nassign g.player_luck 200;", "twice").unwrap();
    assert_eq!(script.statements.len(), 2);
    for statement in &script.statements {
        assert_eq!(statement.operation, "assign");
        assert_eq!(
            statement.parameters,
            vec![
                StatementParameter::AutoPrefixedGlobalVariable("player_luck".to_string()),
                StatementParameter::Number(200),
            ]
        );
    }
}

#[test]
fn party_relocate_scenario() {
    let script = parse(
        "party_relocate_near_party p.main_party :training_ground 3;",
        "scenario",
    )
    .unwrap();
    assert_eq!(script.statements.len(), 1);
    let statement = &script.statements[0];
    assert_eq!(statement.operation, "party_relocate_near_party");
    assert_eq!(
        statement.parameters,
        vec![
            StatementParameter::StatementParamId(StatementParameterId::PartyId(
                "main_party".to_string()
            )),
            StatementParameter::LocalVariable("training_ground".to_string()),
            StatementParameter::Number(3),
        ]
    );
}

#[test]
fn load_error_is_its_own_variant() {
    let err = Error::LoadError;
    assert_eq!(err.to_string(), "Failed to load source.");
    assert!(matches!(err, Error::LoadError));
    assert!(!matches!(err, Error::SourceError(_)));
    let source = Error::SourceError(mbscript::errors::SourceError {
        location: (3, 5),
        description: "Invalid register.".to_string(),
    });
    assert_ne!(err, source);
}

#[test]
fn comment_across_statement_boundary() {
    let script = parse("a 1; /* x ; y\n ; */ b 2;", "comments").unwrap();
    assert_eq!(script.statements.len(), 2);
    assert_eq!(script.statements[0].operation, "a");
    assert_eq!(script.statements[1].operation, "b");
    assert_eq!(
        script.statements[1].parameters,
        vec![StatementParameter::Number(2)]
    );
}

#[test]
fn comment_inside_statement() {
    let script = parse("a /* mid ; comment */ 7;", "comments").unwrap();
    assert_eq!(script.statements.len(), 1);
    assert_eq!(
        script.statements[0].parameters,
        vec![StatementParameter::Number(7)]
    );
}

#[test]
fn unterminated_comment_is_grammar_error() {
    let err = parse("a 1; /* never closed", "comments").unwrap_err();
    assert!(matches!(err, Error::GrammarError(_)));
}

#[test]
fn unterminated_statement_is_grammar_error() {
    let err = parse("a 1", "grammar").unwrap_err();
    assert!(matches!(err, Error::GrammarError(_)));
}

#[test]
fn empty_statement_is_grammar_error() {
    let err = parse(";", "grammar").unwrap_err();
    assert!(matches!(err, Error::GrammarError(_)));
}

#[test]
fn stray_token_is_grammar_error() {
    let err = parse("op @strange;", "grammar").unwrap_err();
    assert!(matches!(err, Error::GrammarError(_)));
    let err = parse("op foo.bar;", "grammar").unwrap_err();
    assert!(matches!(err, Error::GrammarError(_)));
    let err = parse("op reg.1a;", "grammar").unwrap_err();
    assert!(matches!(err, Error::GrammarError(_)));
}

#[test]
fn all_typed_identifier_prefixes() {
    let script = parse(
        "op anim.a fac.b id.c itm.d icon.e menu.f mesh.g mst.h psys.i p.j pt.k pfx.l \
         prsnt.m qst.n spr.o scn.q script.r skl.s snd.t str.u tableau.v trp.w;",
        "typed",
    )
    .unwrap();
    let expected = vec![
        StatementParameter::StatementParamId(StatementParameterId::AnimationId("a".to_string())),
        StatementParameter::StatementParamId(StatementParameterId::FactionId("b".to_string())),
        StatementParameter::StatementParamId(StatementParameterId::InfoPageId("c".to_string())),
        StatementParameter::StatementParamId(StatementParameterId::ItemId("d".to_string())),
        StatementParameter::StatementParamId(StatementParameterId::MapIconId("e".to_string())),
        StatementParameter::StatementParamId(StatementParameterId::GameMenuId("f".to_string())),
        StatementParameter::StatementParamId(StatementParameterId::MeshId("g".to_string())),
        StatementParameter::StatementParamId(StatementParameterId::MissionTemplateId(
            "h".to_string(),
        )),
        StatementParameter::StatementParamId(StatementParameterId::ParticleSystemId(
            "i".to_string(),
        )),
        StatementParameter::StatementParamId(StatementParameterId::PartyId("j".to_string())),
        StatementParameter::StatementParamId(StatementParameterId::PartyTemplateId(
            "k".to_string(),
        )),
        StatementParameter::StatementParamId(StatementParameterId::PostfxId("l".to_string())),
        StatementParameter::StatementParamId(StatementParameterId::PresentationId(
            "m".to_string(),
        )),
        StatementParameter::StatementParamId(StatementParameterId::QuestId("n".to_string())),
        StatementParameter::StatementParamId(StatementParameterId::ScenePropId("o".to_string())),
        StatementParameter::StatementParamId(StatementParameterId::SceneId("q".to_string())),
        StatementParameter::StatementParamId(StatementParameterId::ScriptId("r".to_string())),
        StatementParameter::StatementParamId(StatementParameterId::SkillId("s".to_string())),
        StatementParameter::StatementParamId(StatementParameterId::SoundId("t".to_string())),
        StatementParameter::StatementParamId(StatementParameterId::StringId("u".to_string())),
        StatementParameter::StatementParamId(StatementParameterId::TableauMaterialId(
            "v".to_string(),
        )),
        StatementParameter::StatementParamId(StatementParameterId::TroopId("w".to_string())),
    ];
    assert_eq!(script.statements[0].parameters, expected);
}

#[test]
fn string_register_versus_string_id() {
    let script = parse("op str.5 str.five;", "strings").unwrap();
    assert_eq!(
        script.statements[0].parameters,
        vec![
            StatementParameter::StringRegister(5),
            StatementParameter::StatementParamId(StatementParameterId::StringId(
                "five".to_string()
            )),
        ]
    );
}

#[test]
fn leading_zero_register() {
    let script = parse("op reg.007;", "regs").unwrap();
    assert_eq!(
        script.statements[0].parameters,
        vec![StatementParameter::Register(7)]
    );
}

#[test]
fn comment_separates_tokens() {
    let script = parse("a/*c*/1;", "adjacent").unwrap();
    assert_eq!(script.statements.len(), 1);
    assert_eq!(script.statements[0].operation, "a");
    assert_eq!(
        script.statements[0].parameters,
        vec![StatementParameter::Number(1)]
    );
}

#[test]
fn crlf_line_endings() {
    let script = parse("a 1;\r\nb 2;", "crlf").unwrap();
    assert_eq!(script.statements.len(), 2);
    assert_eq!(script.statements[1].operation, "b");
}

#[test]
fn register_with_sign_is_grammar_error() {
    let err = parse("op reg.-1;", "regs").unwrap_err();
    assert!(matches!(err, Error::GrammarError(_)));
    let err = parse("op str.;", "regs").unwrap_err();
    assert!(matches!(err, Error::GrammarError(_)));
    let err = parse("op g.9;", "regs").unwrap_err();
    assert!(matches!(err, Error::GrammarError(_)));
}

#[test]
fn semicolon_directly_after_token() {
    let script = parse("troop_set_slot trp.player slot_troop_occupation slto_kingdom_hero;", "t")
        .unwrap();
    let statement = &script.statements[0];
    assert_eq!(statement.operation, "troop_set_slot");
    assert_eq!(statement.parameters.len(), 3);
    assert_eq!(
        statement.parameters[0],
        StatementParameter::StatementParamId(StatementParameterId::TroopId("player".to_string()))
    );
}

#[test]
fn operation_with_no_parameters() {
    let script = parse("call_something;", "bare").unwrap();
    assert_eq!(script.statements[0].operation, "call_something");
    assert!(script.statements[0].parameters.is_empty());
}

#[test]
fn column_counts_characters_not_bytes() {
    let err = parse("/* héllo wörld */ op reg.256;", "utf8").unwrap_err();
    match err {
        Error::SourceError(se) => {
            assert_eq!(se.description, "Invalid register.");
            assert_eq!(se.location, (1, 22));
        }
        _ => panic!("expected a source error"),
    }
}

#[test]
fn grammar_diagnostics_carry_positions() {
    let err = parse("a 1;\n  /* open", "diag").unwrap_err();
    match err {
        Error::GrammarError(msg) => assert_eq!(msg, "unterminated block comment at Line: 2, Col: 10"),
        _ => panic!("expected a grammar error"),
    }
    let err = parse("op 1\n2", "diag").unwrap_err();
    assert!(matches!(err, Error::GrammarError(_)));
}
