//! End-to-end tests of the descriptor compiler: whole descriptor sets in,
//! exact database text out.

use sdb::compile::compile;
use sdb::errors::CompileError;

fn files(list: &[(&str, &str)]) -> Vec<(String, String)> {
    list.iter().map(|(n, c)| (n.to_string(), c.to_string())).collect()
}

#[test]
fn single_descriptor_single_entry() {
    // One file, one remap entry: identifier, name, tab, family tag, then
    // exactly key byte and event byte - no `;`, no trailing newline.
    let input = files(&[(
        "0000000000000001ctrl.toml",
        "name = \"Pad\"\ntype = \"xbox\"\nremap = { ActionA = \"ActionB\" }\n",
    )]);
    let out = compile(input).unwrap();
    assert_eq!(out, "0000000000000001Pad\tx0203");
}

#[test]
fn compilation_is_deterministic() {
    let spec = [
        (
            "00000000000000a1ctrl.toml",
            "name = \"One\"\ntype = \"flight\"\nremap = { JoyX = { event = \"JoyX\", deadzone = 0.25 }, Trigger = \"Trigger\" }\n",
        ),
        (
            "0000000000000002ctrl.toml",
            "name = \"Two\"\ntype = \"nintendo\"\nremap = { \"7\" = \"Up\" }\n",
        ),
    ];
    let first = compile(files(&spec)).unwrap();
    let second = compile(files(&spec)).unwrap();
    assert_eq!(first, second);
}

#[test]
fn files_are_processed_in_name_order() {
    let a = (
        "000000000000000actrl.toml",
        "name = \"Late\"\ntype = \"xbox\"\nremap = { }\n",
    );
    let b = (
        "0000000000000001ctrl.toml",
        "name = \"Early\"\ntype = \"xbox\"\nremap = { }\n",
    );
    let out = compile(files(&[a, b])).unwrap();
    assert_eq!(out, "0000000000000001Early\tx\n000000000000000aLate\tx");
}

#[test]
fn empty_directory_gives_empty_database() {
    let out = compile(Vec::new()).unwrap();
    assert_eq!(out, "");
}

#[test]
fn record_separator_stands_between_records_only() {
    let out = compile(files(&[
        (
            "0000000000000001ctrl.toml",
            "name = \"A\"\ntype = \"xbox\"\nremap = { ActionA = \"ActionA\" }\n",
        ),
        (
            "0000000000000002ctrl.toml",
            "name = \"B\"\ntype = \"playstation\"\nremap = { ActionB = \"ActionB\" }\n",
        ),
    ]))
    .unwrap();
    assert_eq!(out, "0000000000000001A\tx0202\n0000000000000002B\tp0303");
    assert!(!out.ends_with('\n'));
}

#[test]
fn entry_separator_stands_between_entries_only() {
    let out = compile(files(&[(
        "0000000000000001ctrl.toml",
        "name = \"P\"\ntype = \"xbox\"\nremap = { ActionA = \"Up\", ActionB = \"Down\" }\n",
    )]))
    .unwrap();
    assert_eq!(out, "0000000000000001P\tx0210;0311");
}

#[test]
fn numeric_key_gets_high_bit() {
    // Raw device code "5" encodes as hex 85.
    let out = compile(files(&[(
        "0000000000000001ctrl.toml",
        "name = \"P\"\ntype = \"xbox\"\nremap = { \"5\" = \"ActionA\" }\n",
    )]))
    .unwrap();
    assert_eq!(out, "0000000000000001P\tx8502");
}

#[test]
fn numeric_keys_sort_as_text_not_as_numbers() {
    // "10" sorts before "2" lexicographically.
    let out = compile(files(&[(
        "0000000000000001ctrl.toml",
        "name = \"P\"\ntype = \"xbox\"\nremap = { \"10\" = \"ActionA\", \"2\" = \"ActionB\" }\n",
    )]))
    .unwrap();
    assert_eq!(out, "0000000000000001P\tx8A02;8203");
}

#[test]
fn parameterized_entry_emits_present_fields_in_fixed_order() {
    let out = compile(files(&[(
        "0000000000000001ctrl.toml",
        "name = \"P\"\ntype = \"flight\"\nremap = { JoyX = { event = \"JoyY\", max = 127, min = -128, scale = 1.5, deadzone = 0.25 } }\n",
    )]))
    .unwrap();
    assert_eq!(out, "0000000000000001P\tf2021a127i-128s1.5d0.25");
}

#[test]
fn scale_only_entry_has_exactly_one_suffix() {
    let out = compile(files(&[(
        "0000000000000001ctrl.toml",
        "name = \"P\"\ntype = \"flight\"\nremap = { JoyX = { event = \"JoyX\", scale = 0.5 } }\n",
    )]))
    .unwrap();
    assert_eq!(out, "0000000000000001P\tf2020s0.5");
}

#[test]
fn absent_event_field_defaults_to_none_code() {
    let out = compile(files(&[(
        "0000000000000001ctrl.toml",
        "name = \"P\"\ntype = \"flight\"\nremap = { Throttle = { max = 255 } }\n",
    )]))
    .unwrap();
    assert_eq!(out, "0000000000000001P\tf2700a255");
}

#[test]
fn unknown_symbol_as_key_is_fatal() {
    let r = compile(files(&[(
        "0000000000000001ctrl.toml",
        "name = \"P\"\ntype = \"xbox\"\nremap = { NotAButton = \"ActionA\" }\n",
    )]));
    match r {
        Err(CompileError::UnknownSymbol(s)) => assert_eq!(s, "NotAButton"),
        other => panic!("expected an unknown-symbol failure, got {:?}", other),
    }
}

#[test]
fn unknown_symbol_as_event_is_fatal() {
    let r = compile(files(&[(
        "0000000000000001ctrl.toml",
        "name = \"P\"\ntype = \"xbox\"\nremap = { ActionA = \"NotAnEvent\" }\n",
    )]));
    match r {
        Err(CompileError::UnknownSymbol(s)) => assert_eq!(s, "NotAnEvent"),
        other => panic!("expected an unknown-symbol failure, got {:?}", other),
    }
}

#[test]
fn unknown_device_type_aborts_the_run() {
    let r = compile(files(&[
        (
            "0000000000000001ctrl.toml",
            "name = \"Good\"\ntype = \"xbox\"\nremap = { ActionA = \"ActionA\" }\n",
        ),
        (
            "0000000000000002ctrl.toml",
            "name = \"Bad\"\ntype = \"gamecube\"\nremap = { ActionA = \"ActionA\" }\n",
        ),
    ]));
    match r {
        Err(CompileError::UnknownDeviceType(s)) => assert_eq!(s, "gamecube"),
        other => panic!("expected an unknown-device-type failure, got {:?}", other),
    }
}

#[test]
fn invalid_mapping_value_is_fatal() {
    let r = compile(files(&[(
        "0000000000000001ctrl.toml",
        "name = \"P\"\ntype = \"xbox\"\nremap = { ActionA = 5 }\n",
    )]));
    match r {
        Err(CompileError::InvalidMapping(s)) => assert_eq!(s, "ActionA"),
        other => panic!("expected an invalid-mapping failure, got {:?}", other),
    }
}

#[test]
fn integer_scale_is_an_invalid_mapping() {
    // The format reads scale as a real; an integer literal is not one.
    let r = compile(files(&[(
        "0000000000000001ctrl.toml",
        "name = \"P\"\ntype = \"xbox\"\nremap = { JoyX = { scale = 1 } }\n",
    )]));
    match r {
        Err(CompileError::InvalidMapping(s)) => assert_eq!(s, "JoyX"),
        other => panic!("expected an invalid-mapping failure, got {:?}", other),
    }
}

#[test]
fn unparseable_document_is_malformed() {
    let r = compile(files(&[("0000000000000001ctrl.toml", "name = [unclosed\n")]));
    assert!(matches!(r, Err(CompileError::MalformedDescriptor(_))));
}

#[test]
fn missing_required_fields_are_malformed() {
    let no_name = compile(files(&[(
        "0000000000000001ctrl.toml",
        "type = \"xbox\"\nremap = { }\n",
    )]));
    assert!(matches!(no_name, Err(CompileError::MalformedDescriptor(_))));
    let no_type = compile(files(&[(
        "0000000000000001ctrl.toml",
        "name = \"P\"\nremap = { }\n",
    )]));
    assert!(matches!(no_type, Err(CompileError::MalformedDescriptor(_))));
    let no_remap = compile(files(&[(
        "0000000000000001ctrl.toml",
        "name = \"P\"\ntype = \"xbox\"\n",
    )]));
    assert!(matches!(no_remap, Err(CompileError::MalformedDescriptor(_))));
}

#[test]
fn short_file_name_is_malformed() {
    let r = compile(files(&[("short.toml", "name = \"P\"\ntype = \"xbox\"\nremap = { }\n")]));
    assert!(matches!(r, Err(CompileError::MalformedDescriptor(_))));
}

#[test]
fn extra_top_level_fields_are_ignored() {
    let out = compile(files(&[(
        "0000000000000001ctrl.toml",
        "name = \"P\"\ntype = \"xbox\"\nextra = 3\nremap = { ActionA = \"ActionA\" }\n",
    )]))
    .unwrap();
    assert_eq!(out, "0000000000000001P\tx0202");
}
