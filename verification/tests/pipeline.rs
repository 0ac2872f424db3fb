use sfz_parser::assemble::{BusOption, EffectType, AriaEffect};
use sfz_parser::control::Control;
use sfz_parser::numbers::Decimal;
use sfz_parser::opcode_types::{KeyMapping, MidiConditions, Opcode, PerformanceParameter,
    AmplifierParameter, SamplePlayback};
use sfz_parser::preprocess::ContentProvider;
use sfz_parser::tokenizer::HeaderType;
use sfz_parser::{parse_sfz, parse_sfz_lenient, SfzError};

fn cv(s: &str) -> Vec<char> {
    s.chars().collect()
}

fn sv(v: &[char]) -> String {
    v.iter().collect()
}

#[test]
fn macro_reference_in_region_sample() {
    // a macro defined before a region is substituted into its opcode value
    let text = cv("#define $EXT wav\n<region>\nsample=kick.$EXT\n");
    let provider = ContentProvider::new();
    let doc = parse_sfz(&text, &provider).unwrap();
    assert_eq!(doc.scopes.len(), 1);
    assert_eq!(doc.scopes[0].kind, HeaderType::Region);
    let got = doc.scopes[0].own.opcodes.get(&cv("sample")).unwrap();
    assert_eq!(
        *got,
        Opcode::SamplePlayback(SamplePlayback::Sample(cv("kick.wav")))
    );
}

#[test]
fn flattened_text_contains_substituted_value() {
    let text = cv("#define $EXT wav\n<region>\nsample=kick.$EXT\n");
    let provider = ContentProvider::new();
    let out = sfz_parser::preprocess::preprocess(&text, &provider).unwrap();
    assert!(sv(&out.text).contains("sample=kick.wav"));
}

#[test]
fn control_label_with_qualifier() {
    let text = cv("<control>\nlabel_cc30=Bass vol\nset_cc40=127\n");
    let provider = ContentProvider::new();
    let doc = parse_sfz(&text, &provider).unwrap();
    let control = doc.control.unwrap();
    let label = control.label_ccn.get(30).unwrap();
    assert_eq!(sv(&label.0), "Bass");
    assert_eq!(sv(label.1.as_ref().unwrap()), "vol");
    assert_eq!(*control.set_ccn.get(40).unwrap(), 127u8);
}

#[test]
fn control_label_without_qualifier() {
    let text = cv("<control>\nlabel_cc30=Mute\n");
    let provider = ContentProvider::new();
    let doc = parse_sfz(&text, &provider).unwrap();
    let control = doc.control.unwrap();
    let label = control.label_ccn.get(30).unwrap();
    assert_eq!(sv(&label.0), "Mute");
    assert!(label.1.is_none());
}

#[test]
fn own_value_wins_over_global() {
    let text = cv("<global>\nvolume=-3\n<region>\nvolume=2\n");
    let provider = ContentProvider::new();
    let doc = parse_sfz(&text, &provider).unwrap();
    assert_eq!(doc.scopes.len(), 2);
    assert_eq!(doc.scopes[1].kind, HeaderType::Region);
    let got = doc.effective_opcode(1, &cv("volume")).unwrap();
    assert_eq!(
        *got,
        Opcode::Performance(PerformanceParameter::Amplifier(AmplifierParameter::Volume(
            Decimal { neg: false, mantissa: 2, scale: 0 }
        )))
    );
}

#[test]
fn out_of_range_velocity_is_rejected() {
    let text = cv("<region>\nhivel=200\n");
    let provider = ContentProvider::new();
    match parse_sfz(&text, &provider) {
        Err(SfzError::OpcodeRangeViolation { key, value, lo, hi }) => {
            assert_eq!(sv(&key), "hivel");
            assert_eq!(sv(&value), "200");
            assert_eq!(lo, 0);
            assert_eq!(hi, 127);
        }
        other => panic!("expected a range violation, got {:?}", other),
    }
}

#[test]
fn mutual_inclusion_is_a_cycle() {
    let text = cv("#include \"a.sfz\"\n");
    let mut provider = ContentProvider::new();
    provider.add_document(cv("a.sfz"), cv("#include \"b.sfz\"\n"));
    provider.add_document(cv("b.sfz"), cv("#include \"a.sfz\"\n"));
    match parse_sfz(&text, &provider) {
        Err(SfzError::IncludeCycle { path }) => assert_eq!(sv(&path), "a.sfz"),
        other => panic!("expected a cycle, got {:?}", other),
    }
}

#[test]
fn replacement_text_is_not_rescanned() {
    // the replacement holds a sigil, but substitution is one pass only
    let text = cv("#define $A $B\n<region>\nregion_label=$A\n");
    let provider = ContentProvider::new();
    let out = sfz_parser::preprocess::preprocess(&text, &provider).unwrap();
    assert!(sv(&out.text).contains("region_label=$B"));
}

#[test]
fn inclusion_order_follows_directive_order() {
    let text = cv("#include \"a.sfz\"\n#include \"b.sfz\"\n<region>\nlokey=1\n");
    let mut provider = ContentProvider::new();
    provider.add_document(cv("a.sfz"), cv("k1=v1\n"));
    provider.add_document(cv("b.sfz"), cv("k2=v2\n"));
    let out = sfz_parser::preprocess::preprocess(&text, &provider).unwrap();
    let flat = sv(&out.text);
    let p1 = flat.find("k1=v1").unwrap();
    let p2 = flat.find("k2=v2").unwrap();
    assert!(p1 < p2);
    let names: Vec<String> = out.inclusions.iter().map(|p| sv(p)).collect();
    assert_eq!(names, vec!["a.sfz".to_string(), "b.sfz".to_string()]);
}

#[test]
fn nested_inclusions_are_listed_in_encounter_order() {
    let text = cv("#include \"a.sfz\"\n#include \"b.sfz\"\n");
    let mut provider = ContentProvider::new();
    provider.add_document(cv("a.sfz"), cv("#include \"c.sfz\"\n"));
    provider.add_document(cv("b.sfz"), cv("x=1\n"));
    provider.add_document(cv("c.sfz"), cv("y=2\n"));
    let out = sfz_parser::preprocess::preprocess(&text, &provider).unwrap();
    let names: Vec<String> = out.inclusions.iter().map(|p| sv(p)).collect();
    assert_eq!(
        names,
        vec!["a.sfz".to_string(), "c.sfz".to_string(), "b.sfz".to_string()]
    );
}

#[test]
fn inclusion_paths_resolve_against_the_including_directory() {
    let text = cv("#include \"data/a.sfz\"\n");
    let mut provider = ContentProvider::new();
    provider.add_document(cv("data/a.sfz"), cv("#include \"b.sfz\"\n"));
    provider.add_document(cv("data/b.sfz"), cv("<region>\nlokey=3\n"));
    let doc = parse_sfz(&text, &provider).unwrap();
    assert_eq!(doc.scopes.len(), 1);
}

#[test]
fn integer_boundaries_classify() {
    let text = cv("<region>\nhivel=127\nlovel=0\n");
    let provider = ContentProvider::new();
    let doc = parse_sfz(&text, &provider).unwrap();
    let hi = doc.scopes[0].own.opcodes.get(&cv("hivel")).unwrap();
    assert_eq!(*hi, Opcode::KeyMapping(KeyMapping::HiVel(127)));
    let lo = doc.scopes[0].own.opcodes.get(&cv("lovel")).unwrap();
    assert_eq!(*lo, Opcode::KeyMapping(KeyMapping::LoVel(0)));
}

#[test]
fn one_above_the_boundary_fails() {
    let text = cv("<region>\nhivel=128\n");
    let provider = ContentProvider::new();
    assert!(matches!(
        parse_sfz(&text, &provider),
        Err(SfzError::OpcodeRangeViolation { .. })
    ));
}

#[test]
fn decimal_boundary_classifies_and_excess_fails() {
    let ok = cv("<global>\nvolume=6\n");
    let provider = ContentProvider::new();
    assert!(parse_sfz(&ok, &provider).is_ok());
    let bad = cv("<global>\nvolume=6.01\n");
    match parse_sfz(&bad, &provider) {
        Err(SfzError::OpcodeRangeViolation { key, lo, hi, .. }) => {
            assert_eq!(sv(&key), "volume");
            assert_eq!(lo, -144);
            assert_eq!(hi, 6);
        }
        other => panic!("expected a range violation, got {:?}", other),
    }
}

#[test]
fn decimal_value_reads_back_exactly() {
    let text = cv("<region>\nvolume=-3.25\n");
    let provider = ContentProvider::new();
    let doc = parse_sfz(&text, &provider).unwrap();
    let got = doc.scopes[0].own.opcodes.get(&cv("volume")).unwrap();
    assert_eq!(
        *got,
        Opcode::Performance(PerformanceParameter::Amplifier(AmplifierParameter::Volume(
            Decimal { neg: true, mantissa: 325, scale: 2 }
        )))
    );
}

#[test]
fn unknown_opcode_is_preserved_not_rejected() {
    let text = cv("<region>\nvendor_x=foo bar\n");
    let provider = ContentProvider::new();
    let doc = parse_sfz(&text, &provider).unwrap();
    let got = doc.scopes[0].own.parameters.get(&cv("vendor_x")).unwrap();
    assert_eq!(sv(got), "foo bar");
    assert!(doc.scopes[0].own.opcodes.get(&cv("vendor_x")).is_none());
}

#[test]
fn unrecognized_header_tag_is_fatal() {
    let text = cv("<weird>\nlokey=1\n");
    let provider = ContentProvider::new();
    match parse_sfz(&text, &provider) {
        Err(SfzError::UnrecognizedHeaderTag { name, .. }) => assert_eq!(sv(&name), "weird"),
        other => panic!("expected an unrecognized tag, got {:?}", other),
    }
}

#[test]
fn malformed_opcode_line_is_fatal() {
    let text = cv("<region>\njunk\n");
    let provider = ContentProvider::new();
    assert!(matches!(
        parse_sfz(&text, &provider),
        Err(SfzError::UnexpectedToken { .. })
    ));
}

#[test]
fn unrecognized_control_key_is_fatal() {
    let text = cv("<control>\nbogus=1\n");
    let provider = ContentProvider::new();
    match parse_sfz(&text, &provider) {
        Err(SfzError::UnrecognizedControlKey { key }) => assert_eq!(sv(&key), "bogus"),
        other => panic!("expected an unrecognized control key, got {:?}", other),
    }
}

#[test]
fn malformed_define_is_fatal() {
    let text = cv("#define EXT wav\n<region>\nlokey=1\n");
    let provider = ContentProvider::new();
    assert!(matches!(
        parse_sfz(&text, &provider),
        Err(SfzError::MalformedDirective { .. })
    ));
}

#[test]
fn missing_inclusion_target_is_fatal() {
    let text = cv("#include \"missing.sfz\"\n");
    let provider = ContentProvider::new();
    match parse_sfz(&text, &provider) {
        Err(SfzError::IncludeNotFound { path }) => assert_eq!(sv(&path), "missing.sfz"),
        other => panic!("expected a missing document, got {:?}", other),
    }
}

#[test]
fn unbound_macro_reference_is_fatal() {
    let text = cv("<region>\nsample=kick.$EXT\n");
    let provider = ContentProvider::new();
    match parse_sfz(&text, &provider) {
        Err(SfzError::MacroUnbound { name, .. }) => assert_eq!(sv(&name), "EXT"),
        other => panic!("expected an unbound macro, got {:?}", other),
    }
}

#[test]
fn control_header_must_be_first() {
    let text = cv("<region>\nlokey=1\n<control>\ndefault_path=x\n");
    let provider = ContentProvider::new();
    assert!(matches!(
        parse_sfz(&text, &provider),
        Err(SfzError::InvalidNesting { .. })
    ));
}

#[test]
fn global_after_group_is_invalid_nesting() {
    let text = cv("<group>\nlokey=1\n<global>\nvolume=1\n");
    let provider = ContentProvider::new();
    assert!(matches!(
        parse_sfz(&text, &provider),
        Err(SfzError::InvalidNesting { .. })
    ));
}

#[test]
fn scope_chain_parents() {
    let text = cv("<global>\nvolume=1\n<master>\npan=0\n<group>\nlokey=1\n<region>\nhikey=2\n");
    let provider = ContentProvider::new();
    let doc = parse_sfz(&text, &provider).unwrap();
    assert_eq!(doc.scopes.len(), 4);
    assert_eq!(doc.scopes[0].parent, None);
    assert_eq!(doc.scopes[1].parent, Some(0));
    assert_eq!(doc.scopes[2].parent, Some(1));
    assert_eq!(doc.scopes[3].parent, Some(2));
    // inherited through the whole chain
    let got = doc.effective_opcode(3, &cv("volume")).unwrap();
    assert_eq!(
        *got,
        Opcode::Performance(PerformanceParameter::Amplifier(AmplifierParameter::Volume(
            Decimal { neg: false, mantissa: 1, scale: 0 }
        )))
    );
}

#[test]
fn nearest_enclosing_definition_wins() {
    let text = cv("<global>\nvolume=-3\n<group>\nvolume=5\n<region>\nlokey=1\n");
    let provider = ContentProvider::new();
    let doc = parse_sfz(&text, &provider).unwrap();
    let got = doc.effective_opcode(2, &cv("volume")).unwrap();
    assert_eq!(
        *got,
        Opcode::Performance(PerformanceParameter::Amplifier(AmplifierParameter::Volume(
            Decimal { neg: false, mantissa: 5, scale: 0 }
        )))
    );
}

#[test]
fn absent_key_resolves_to_none() {
    let text = cv("<region>\nlokey=1\n");
    let provider = ContentProvider::new();
    let doc = parse_sfz(&text, &provider).unwrap();
    assert!(doc.effective_opcode(0, &cv("volume")).is_none());
}

#[test]
fn lenient_mode_collects_and_continues() {
    let text = cv("<region>\nhivel=200\nlokey=10\n");
    let provider = ContentProvider::new();
    let (doc, errs) = parse_sfz_lenient(&text, &provider).unwrap();
    assert_eq!(errs.len(), 1);
    assert!(matches!(errs[0], SfzError::OpcodeRangeViolation { .. }));
    let got = doc.scopes[0].own.opcodes.get(&cv("lokey")).unwrap();
    assert_eq!(*got, Opcode::KeyMapping(KeyMapping::LoKey(10)));
    assert!(doc.scopes[0].own.opcodes.get(&cv("hivel")).is_none());
}

#[test]
fn control_offsets_and_path() {
    let text = cv("<control>\ndefault_path=Samples/\nnote_offset=5\noctave_offset=-1\n");
    let provider = ContentProvider::new();
    let doc = parse_sfz(&text, &provider).unwrap();
    let control = doc.control.unwrap();
    assert_eq!(sv(&control.default_path), "Samples/");
    assert_eq!(control.note_offset, 5);
    assert_eq!(control.octave_offset, -1);
}

#[test]
fn note_offset_out_of_range_is_rejected() {
    let text = cv("<control>\nnote_offset=200\n");
    let provider = ContentProvider::new();
    match parse_sfz(&text, &provider) {
        Err(SfzError::OpcodeRangeViolation { key, lo, hi, .. }) => {
            assert_eq!(sv(&key), "note_offset");
            assert_eq!(lo, -127);
            assert_eq!(hi, 127);
        }
        other => panic!("expected a range violation, got {:?}", other),
    }
}

#[test]
fn controller_indexed_keys_classify() {
    let text = cv("<region>\nlocc64=100\n");
    let provider = ContentProvider::new();
    let doc = parse_sfz(&text, &provider).unwrap();
    let got = doc.scopes[0].own.opcodes.get(&cv("locc64")).unwrap();
    assert_eq!(*got, Opcode::MidiConditions(MidiConditions::LowCC(64, 100)));
}

#[test]
fn quoted_value_keeps_spaces() {
    let text = cv("<region>\nsample=\"my kick.wav\"\n");
    let provider = ContentProvider::new();
    let doc = parse_sfz(&text, &provider).unwrap();
    let got = doc.scopes[0].own.opcodes.get(&cv("sample")).unwrap();
    assert_eq!(
        *got,
        Opcode::SamplePlayback(SamplePlayback::Sample(cv("my kick.wav")))
    );
}

#[test]
fn effect_block_builds_a_record() {
    let text = cv("<effect>\ntype=mda_limiter\nbus=aux1\neffect1=50.5\ndsp_order=3\n");
    let provider = ContentProvider::new();
    let doc = parse_sfz(&text, &provider).unwrap();
    assert_eq!(doc.effects.len(), 1);
    let e = &doc.effects[0];
    assert_eq!(e.effect_type, Some(EffectType::AriaEffects(AriaEffect::Limiter)));
    assert_eq!(e.bus, BusOption::Aux1);
    assert_eq!(e.effect_one, Decimal { neg: false, mantissa: 505, scale: 1 });
    assert_eq!(e.dsp_order, 3);
}

#[test]
fn curve_block_builds_a_record() {
    let text = cv("<curve>\ncurve_index=7\nv000=-1\nv127=1\n");
    let provider = ContentProvider::new();
    let doc = parse_sfz(&text, &provider).unwrap();
    assert_eq!(doc.curves.len(), 1);
    let c = &doc.curves[0];
    assert_eq!(c.index, 7);
    assert_eq!(c.values.len(), 2);
    assert_eq!(sv(&c.values[0].0), "v000");
    assert_eq!(c.values[0].1, Decimal { neg: true, mantissa: 1, scale: 0 });
    assert_eq!(c.values[1].1, Decimal { neg: false, mantissa: 1, scale: 0 });
}

#[test]
fn later_occurrence_of_a_key_wins() {
    let text = cv("<region>\nlokey=10\nlokey=20\n");
    let provider = ContentProvider::new();
    let doc = parse_sfz(&text, &provider).unwrap();
    let got = doc.scopes[0].own.opcodes.get(&cv("lokey")).unwrap();
    assert_eq!(*got, Opcode::KeyMapping(KeyMapping::LoKey(20)));
}

#[test]
fn empty_document_parses_to_an_empty_tree() {
    let text = cv("");
    let provider = ContentProvider::new();
    let doc = parse_sfz(&text, &provider).unwrap();
    assert!(doc.control.is_none());
    assert!(doc.scopes.is_empty());
}

#[test]
fn enumerated_value_outside_its_set_is_rejected() {
    let text = cv("<region>\ntrigger=bogus\n");
    let provider = ContentProvider::new();
    match parse_sfz(&text, &provider) {
        Err(SfzError::OpcodeRangeViolation { key, value, .. }) => {
            assert_eq!(sv(&key), "trigger");
            assert_eq!(sv(&value), "bogus");
        }
        other => panic!("expected a range violation, got {:?}", other),
    }
}

#[test]
fn macro_defined_inside_inclusion_is_visible_after() {
    let text = cv("#include \"defs.sfz\"\n<region>\nsample=kick.$EXT\n");
    let mut provider = ContentProvider::new();
    provider.add_document(cv("defs.sfz"), cv("#define $EXT flac\n"));
    let doc = parse_sfz(&text, &provider).unwrap();
    let got = doc.scopes[0].own.opcodes.get(&cv("sample")).unwrap();
    assert_eq!(
        *got,
        Opcode::SamplePlayback(SamplePlayback::Sample(cv("kick.flac")))
    );
    let control_table = doc.control;
    assert!(control_table.is_none());
}
