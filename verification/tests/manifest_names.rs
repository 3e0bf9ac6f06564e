use ontogen::servers::manifest::{package_name_from_manifest, sidecar_lib_crate_name, sidecar_types_module_path};

#[test]
fn package_name_has_hyphens_turned_into_underscores() {
    let manifest = "[package]\nname = \"my-app\"\nversion = \"0.1.0\"\n";
    assert_eq!(sidecar_lib_crate_name(manifest, "Cargo.toml"), Ok("my_app".to_string()));
}

#[test]
fn explicit_lib_name_wins_over_package_name() {
    let manifest = "[package]\nname = \"my-app\"\n\n[lib]\nname = \"my-lib\"\n";
    assert_eq!(sidecar_lib_crate_name(manifest, "Cargo.toml"), Ok("my-lib".to_string()));
    let lib_first = "[lib]\nname=\"core_lib\"\n[package]\nname=\"pkg-name\"";
    assert_eq!(sidecar_lib_crate_name(lib_first, "Cargo.toml"), Ok("core_lib".to_string()));
}

#[test]
fn names_outside_package_and_lib_are_ignored() {
    let manifest = "name = \"top\"\n[dependencies]\nname = \"dep\"\n";
    assert_eq!(
        sidecar_lib_crate_name(manifest, "/x/Cargo.toml"),
        Err("could not determine lib crate name from /x/Cargo.toml".to_string())
    );
}

#[test]
fn crlf_lines_and_indentation_are_trimmed() {
    let manifest = "  [package]  \r\n   name   =   \"a-b-c\"  \r\n";
    assert_eq!(sidecar_lib_crate_name(manifest, "Cargo.toml"), Ok("a_b_c".to_string()));
}

#[test]
fn a_later_name_replaces_an_earlier_one() {
    let manifest = "[package]\nname = \"first\"\nname = \"second\"\n";
    assert_eq!(sidecar_lib_crate_name(manifest, "Cargo.toml"), Ok("second".to_string()));
}

#[test]
fn crate_prefix_is_dropped_from_module_paths() {
    assert_eq!(sidecar_types_module_path("crate::schema::types"), "schema::types");
    assert_eq!(sidecar_types_module_path("other_crate::types"), "other_crate::types");
}

#[test]
fn package_name_ignores_names_outside_the_package_table() {
    let manifest = "\
[dependencies]
name = \"not-the-package\"

[package]
name = \"real-package\"

[[bin]]
name = \"some-binary\"
";
    assert_eq!(package_name_from_manifest(manifest).as_deref(), Some("real-package"));
}

#[test]
fn package_name_absent_yields_none() {
    assert_eq!(package_name_from_manifest("[workspace]\nmembers = [\"a\"]\n"), None);
}
