use ontogen::admin::{install_edit, InstallEdit};

const LAYER: &str = "../crates/ontogen/packages/nuxt_admin_layer";

#[test]
fn layer_is_added_to_an_existing_extends_array() {
    let content = "export default defineNuxtConfig({\n  extends: ['../base'],\n})\n";
    let edit = install_edit(content, LAYER);
    assert_eq!(
        edit,
        InstallEdit::Rewrite(
            "export default defineNuxtConfig({\n  extends: ['../crates/ontogen/packages/nuxt_admin_layer', '../base'],\n})\n"
                .to_string()
        )
    );
}

#[test]
fn extends_is_inserted_when_missing() {
    let content = "export default defineNuxtConfig({\n  ssr: false,\n})\n";
    let edit = install_edit(content, LAYER);
    assert_eq!(
        edit,
        InstallEdit::Rewrite(
            "export default defineNuxtConfig({\n  extends: ['../crates/ontogen/packages/nuxt_admin_layer'],\n  ssr: false,\n})\n"
                .to_string()
        )
    );
}

#[test]
fn install_is_idempotent() {
    let content = "export default defineNuxtConfig({\n  ssr: false,\n})\n";
    let InstallEdit::Rewrite(once) = install_edit(content, LAYER) else { panic!("expected an edit") };
    assert_eq!(install_edit(&once, LAYER), InstallEdit::Unchanged);
}

#[test]
fn unsupported_shapes_warn_without_editing() {
    assert_eq!(
        install_edit("export default defineNuxtConfig({ extends: baseLayers })", LAYER),
        InstallEdit::Warn(format!(
            "ontogen: nuxt.config.ts has `extends` but not as an array \u{2014} add '{LAYER}' manually"
        ))
    );
    assert_eq!(
        install_edit("module.exports = {}", LAYER),
        InstallEdit::Warn(
            "ontogen: could not find defineNuxtConfig({ in nuxt.config.ts \u{2014} add extends manually".to_string()
        )
    );
}
