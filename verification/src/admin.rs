//! Installing the admin layer into a Nuxt application: a targeted,
//! idempotent edit of its `nuxt.config.ts` that adds the layer package to
//! the `extends` array.

use vstd::prelude::*;

use crate::text::{chars_of, contains, find, find_from, index_of, occurs_at, str_contains, string_of_range};

verus! {

/// Where the admin layer goes: the Nuxt config file to edit and the layer
/// path to add to its `extends` array.
#[derive(Debug, Clone)]
pub struct AdminLayerConfig {
    /// Path of the Nuxt app's `nuxt.config.ts`.
    pub nuxt_config: String,
    /// Path of the admin layer package, relative to `nuxt.config.ts`.
    pub layer_path: String,
}

/// What installing the layer does to a config file's text.
#[derive(Debug, Clone, PartialEq, Eq)]
pub enum InstallEdit {
    /// The layer is already there: nothing to write.
    Unchanged,
    /// The new text of the file.
    Rewrite(String),
    /// The file has a shape the edit does not handle: the warning to give,
    /// with the file left as it is.
    Warn(String),
}

/// [`InstallEdit`] with its text as a character sequence.
pub enum InstallEditView {
    Unchanged,
    Rewrite(Seq<char>),
    Warn(Seq<char>),
}

impl View for InstallEdit {
    type V = InstallEditView;

    open spec fn view(&self) -> InstallEditView {
        match self {
            InstallEdit::Unchanged => InstallEditView::Unchanged,
            InstallEdit::Rewrite(s) => InstallEditView::Rewrite(s@),
            InstallEdit::Warn(s) => InstallEditView::Warn(s@),
        }
    }
}

/// The position of the first `[` after the first `extends:`.
pub open spec fn extends_bracket(c: Seq<char>) -> Option<int> {
    match index_of(c, "extends:"@) {
        Some(i) => match index_of(c.subrange(i, c.len() as int), "["@) {
            Some(j) => Some(i + j),
            None => None,
        },
        None => None,
    }
}

/// The opener after which a missing `extends` is inserted.
pub open spec fn define_marker() -> Seq<char> {
    "defineNuxtConfig({"@
}

/// The warning for an `extends` that is not an array.
pub open spec fn not_array_warning(layer: Seq<char>) -> Seq<char> {
    "ontogen: nuxt.config.ts has `extends` but not as an array \u{2014} add '"@ + layer + "' manually"@
}

/// The warning for a config without `defineNuxtConfig({`.
pub open spec fn no_define_warning() -> Seq<char> {
    "ontogen: could not find defineNuxtConfig({ in nuxt.config.ts \u{2014} add extends manually"@
}

/// The edit that installs `layer` into the config text `c`: none when the
/// text already names the layer; with an `extends` key, the layer quoted
/// first in its array; without one, a new `extends` array after
/// `defineNuxtConfig({`; a warning for any other shape.
pub open spec fn install_edit_spec(c: Seq<char>, layer: Seq<char>) -> InstallEditView {
    if contains(c, layer) {
        InstallEditView::Unchanged
    } else if contains(c, "extends:"@) || contains(c, "extends :"@) {
        match extends_bracket(c) {
            Some(b) => InstallEditView::Rewrite(
                c.subrange(0, b + 1) + "'"@ + layer + "', "@ + c.subrange(b + 1, c.len() as int),
            ),
            None => InstallEditView::Warn(not_array_warning(layer)),
        }
    } else {
        match index_of(c, define_marker()) {
            Some(p) => InstallEditView::Rewrite(
                c.subrange(0, p + define_marker().len()) + "\n  extends: ['"@ + layer + "'],"@ + c.subrange(
                    p + define_marker().len(),
                    c.len() as int,
                ),
            ),
            None => InstallEditView::Warn(no_define_warning()),
        }
    }
}

/// Decide the edit that installs the admin layer into the text of a
/// `nuxt.config.ts`. This is a string-level edit, not a TypeScript parse:
/// it recognizes a top-level `extends: [...]` array or no `extends` at all;
/// other shapes get a warning and no edit.
pub fn install_edit(content: &str, layer_path: &str) -> (r: InstallEdit)
    ensures
        r@ == install_edit_spec(content@, layer_path@),
{
    if str_contains(content, layer_path) {
        return InstallEdit::Unchanged;
    }
    let v = chars_of(content);
    let vlen = v.len();
    if str_contains(content, "extends:") || str_contains(content, "extends :") {
        match find(content, "extends:") {
            Some(i) => {
                let bracket = chars_of("[");
                proof {
                    reveal_strlit("[");
                }
                match find_from(&v, &bracket, i) {
                    Some(b) => {
                        let mut result = string_of_range(&v, 0, b + 1);
                        result.append("'");
                        result.append(layer_path);
                        result.append("', ");
                        let tail = string_of_range(&v, b + 1, vlen);
                        result.append(tail.as_str());
                        return InstallEdit::Rewrite(result);
                    },
                    None => {},
                }
            },
            None => {},
        }
        let mut w = String::from_str("ontogen: nuxt.config.ts has `extends` but not as an array \u{2014} add '");
        w.append(layer_path);
        w.append("' manually");
        InstallEdit::Warn(w)
    } else {
        proof {
            reveal_strlit("defineNuxtConfig({");
        }
        match find(content, "defineNuxtConfig({") {
            Some(p) => {
                let at = p + 18;
                let mut result = string_of_range(&v, 0, at);
                result.append("\n  extends: ['");
                result.append(layer_path);
                result.append("'],");
                let tail = string_of_range(&v, at, v.len());
                result.append(tail.as_str());
                InstallEdit::Rewrite(result)
            },
            None => InstallEdit::Warn(
                String::from_str("ontogen: could not find defineNuxtConfig({ in nuxt.config.ts \u{2014} add extends manually"),
            ),
        }
    }
}

/// Installing is idempotent: after an edit that rewrites the config, a
/// second install finds the layer and leaves the text unchanged.
pub proof fn law_install_idempotent(c: Seq<char>, layer: Seq<char>)
    ensures
        install_edit_spec(c, layer) matches InstallEditView::Rewrite(new) ==> install_edit_spec(new, layer)
            is Unchanged,
{
    reveal_strlit("'");
    reveal_strlit("[");
    reveal_strlit("extends:");
    reveal_strlit("\n  extends: ['");
    reveal_strlit("defineNuxtConfig({");
    match install_edit_spec(c, layer) {
        InstallEditView::Rewrite(new) => {
            if contains(c, "extends:"@) || contains(c, "extends :"@) {
                assert(extends_bracket(c) is Some);
                assert(index_of(c, "extends:"@) is Some);
                let i = index_of(c, "extends:"@)->0;
                crate::text::lemma_index_of_bounds(c, "extends:"@);
                crate::text::lemma_index_of_bounds(c.subrange(i, c.len() as int), "["@);
                let j = index_of(c.subrange(i, c.len() as int), "["@)->0;
                let b = i + j;
                assert(extends_bracket(c) == Some(b));
                assert(0 <= b && b + 1 <= c.len());
                let at = b + 2;
                assert(new.subrange(at, at + layer.len()) =~= layer);
                assert(occurs_at(new, layer, at));
            } else {
                let p = index_of(c, define_marker())->0;
                crate::text::lemma_index_of_bounds(c, define_marker());
                let at = p + define_marker().len() + "\n  extends: ['"@.len();
                assert(new.subrange(at, at + layer.len()) =~= layer);
                assert(occurs_at(new, layer, at));
            }
        },
        _ => {},
    }
}

} // verus!
