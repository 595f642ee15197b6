use samplem_bridge::invocation::{flag_text, program_name, Invocation};

fn args_of(path: &str, normalize: bool, trim: bool, layout: &str) -> Vec<String> {
    Invocation::new(path.to_string(), normalize, trim, layout.to_string()).to_args()
}

#[test]
fn album_flat_layout_gives_documented_arguments() {
    let args = args_of("/music/album", true, false, "flat");
    assert_eq!(
        args,
        vec![
            "repack",
            "--path",
            "/music/album",
            "--normalize",
            "true",
            "--trim",
            "false",
            "--layout",
            "flat"
        ]
    );
}

#[test]
fn every_flag_combination_uses_literal_tokens() {
    for normalize in [false, true] {
        for trim in [false, true] {
            let args = args_of("p", normalize, trim, "l");
            assert_eq!(args.len(), 9);
            assert_eq!(args[0], "repack");
            assert_eq!(args[1], "--path");
            assert_eq!(args[2], "p");
            assert_eq!(args[3], "--normalize");
            assert_eq!(args[4], if normalize { "true" } else { "false" });
            assert_eq!(args[5], "--trim");
            assert_eq!(args[6], if trim { "true" } else { "false" });
            assert_eq!(args[7], "--layout");
            assert_eq!(args[8], "l");
        }
    }
}

#[test]
fn malformed_inputs_pass_through_unchanged() {
    let args = args_of("", false, false, "--path");
    assert_eq!(args[2], "");
    assert_eq!(args[8], "--path");
    let args = args_of("  a dir/with spaces\n", true, true, "no such layout");
    assert_eq!(args[2], "  a dir/with spaces\n");
    assert_eq!(args[8], "no such layout");
    assert_eq!(args.len(), 9);
}

#[test]
fn building_twice_gives_the_same_arguments() {
    let invocation = Invocation::new("/a".to_string(), true, true, "nested".to_string());
    assert_eq!(invocation.to_args(), invocation.to_args());
    assert_eq!(invocation.path(), "/a");
    assert_eq!(invocation.layout(), "nested");
    assert!(invocation.normalize() && invocation.trim());
}

#[test]
fn flag_tokens_are_words() {
    assert_eq!(flag_text(true), "true");
    assert_eq!(flag_text(false), "false");
}

#[test]
fn tool_is_looked_up_by_name() {
    assert_eq!(program_name(), "samplem");
}
