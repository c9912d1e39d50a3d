//! The settings of D2 diagrams, and where they come from.

use crate::paths::{
    clone_path, optional_path_bytes, path_buf_bytes, path_from, paths_equal, same_components,
    same_path,
};
use crate::text::{clone_strings, same_texts, texts};
use std::path::PathBuf;
use vstd::prelude::*;
use vstd::utf8::encode_utf8;

verus! {

/// The part of a settings file that concerns D2 diagrams.
#[derive(Debug, Default, PartialEq)]
pub struct D2SettingsContent {
    pub path: Option<String>,
    pub arguments: Option<Vec<String>>,
}

/// The part of a settings file that concerns Markdown previews.
#[derive(Debug, Default, PartialEq)]
pub struct MarkdownPreviewSettingsContent {
    pub d2: Option<D2SettingsContent>,
}

/// A settings file. What is left out of it is `None`.
#[derive(Debug, Default, PartialEq)]
pub struct SettingsContent {
    pub markdown_preview: Option<MarkdownPreviewSettingsContent>,
}

/// How D2 diagrams are rendered.
#[derive(Debug, PartialEq)]
pub struct D2Settings {
    /// The `d2` binary to render with. Defaults to `d2` from `PATH`.
    pub path: Option<PathBuf>,
    pub arguments: Vec<String>,
}

/// How D2 diagrams are rendered, over the bytes of the path and the texts of the arguments.
#[verifier::ext_equal]
pub struct D2SettingsView {
    pub path: Option<Seq<u8>>,
    pub arguments: Seq<Seq<char>>,
}

impl View for D2Settings {
    type V = D2SettingsView;

    open spec fn view(&self) -> D2SettingsView {
        D2SettingsView {
            path: optional_path_bytes(self.path),
            arguments: texts(self.arguments@),
        }
    }
}

/// Whether two settings are the same: both or neither name a binary, the paths are the same path,
/// and the arguments are the same.
pub open spec fn same_settings(a: D2SettingsView, b: D2SettingsView) -> bool {
    &&& match (a.path, b.path) {
        (Some(x), Some(y)) => same_path(x, y),
        (None, None) => true,
        _ => false,
    }
    &&& a.arguments == b.arguments
}

/// The D2 part of a settings file, if it has one.
pub open spec fn d2_content(content: SettingsContent) -> Option<D2SettingsContent> {
    match content.markdown_preview {
        Some(preview) => preview.d2,
        None => None,
    }
}

/// The D2 settings that a settings file gives: no binary and no arguments where it says nothing.
pub open spec fn settings_of(content: SettingsContent) -> D2SettingsView {
    D2SettingsView {
        path: match d2_content(content) {
            Some(d2) => match d2.path {
                Some(path) => Some(encode_utf8(path@)),
                None => None,
            },
            None => None,
        },
        arguments: match d2_content(content) {
            Some(d2) => match d2.arguments {
                Some(arguments) => texts(arguments@),
                None => Seq::empty(),
            },
            None => Seq::empty(),
        },
    }
}

/// Settings differ exactly if one names a binary and the other doesn't, or they name different
/// paths, or the arguments differ somewhere.
pub proof fn law_settings_differ(a: D2Settings, b: D2Settings)
    ensures
        a.path is Some != b.path is Some ==> !same_settings(a@, b@),
        a.path is Some && b.path is Some && path_buf_bytes(a.path->0) != path_buf_bytes(b.path->0)
            && !same_components(path_buf_bytes(a.path->0), path_buf_bytes(b.path->0))
            ==> !same_settings(a@, b@),
        a.arguments.len() != b.arguments.len() ==> !same_settings(a@, b@),
        forall|i: int|
            0 <= i < a.arguments.len() && a.arguments.len() == b.arguments.len()
                && #[trigger] a.arguments@[i]@ != b.arguments@[i]@ ==> !same_settings(a@, b@),
        (a.path is Some == b.path is Some) && (a.path is Some ==> path_buf_bytes(a.path->0)
            == path_buf_bytes(b.path->0) || same_components(
            path_buf_bytes(a.path->0),
            path_buf_bytes(b.path->0),
        )) && a.arguments.len() == b.arguments.len() && (forall|i: int|
            0 <= i < a.arguments.len() ==> #[trigger] a.arguments@[i]@ == b.arguments@[i]@)
            ==> same_settings(a@, b@),
{
    assert forall|i: int|
        0 <= i < a.arguments.len() && a.arguments.len() == b.arguments.len()
            && #[trigger] a.arguments@[i]@ != b.arguments@[i]@ implies !same_settings(a@, b@) by {
        assert(a@.arguments[i] != b@.arguments[i]);
    }
    if a.arguments.len() != b.arguments.len() {
        assert(a@.arguments.len() != b@.arguments.len());
    }
    if a.arguments.len() == b.arguments.len() && (forall|i: int|
        0 <= i < a.arguments.len() ==> #[trigger] a.arguments@[i]@ == b.arguments@[i]@) {
        assert forall|i: int| 0 <= i < a.arguments.len() implies a@.arguments[i]
            == b@.arguments[i] by {
            assert(a.arguments@[i]@ == b.arguments@[i]@);
        }
        assert(a@.arguments =~= b@.arguments);
    }
}

/// Settings are seen as they are: the bytes of the path, and the texts of the arguments.
pub proof fn law_settings_view(settings: D2Settings)
    ensures
        settings@.path == (match settings.path {
            Some(path) => Some(path_buf_bytes(path)),
            None => None,
        }),
        settings@.arguments.len() == settings.arguments@.len(),
        forall|i: int|
            0 <= i < settings.arguments@.len() ==> #[trigger] settings@.arguments[i]
                == settings.arguments@[i]@,
{
}

/// What a settings file says of D2 is taken over word for word; what it leaves out, at any level,
/// is taken as no binary and no arguments.
pub proof fn law_settings_come_from_the_file(content: SettingsContent)
    ensures
        ({
            let d2 = content.markdown_preview->0.d2;
            let has_d2 = content.markdown_preview is Some && d2 is Some;
            &&& settings_of(content).path is Some <==> has_d2 && d2->0.path is Some
            &&& has_d2 && d2->0.path is Some ==> settings_of(content).path == Some(
                encode_utf8(d2->0.path->0@),
            )
            &&& has_d2 && d2->0.arguments is Some ==> {
                &&& settings_of(content).arguments.len() == d2->0.arguments->0@.len()
                &&& forall|i: int|
                    0 <= i < d2->0.arguments->0@.len() ==> #[trigger] settings_of(
                        content,
                    ).arguments[i] == d2->0.arguments->0@[i]@
            }
            &&& !(has_d2 && d2->0.arguments is Some) ==> settings_of(content).arguments.len() == 0
        }),
{
}

impl Default for D2Settings {
    fn default() -> (r: Self)
        ensures
            r@ == (D2SettingsView { path: None, arguments: Seq::empty() }),
    {
        let r = D2Settings { path: None, arguments: Vec::new() };
        assert(r@.arguments =~= Seq::empty());
        r
    }
}

impl Clone for D2Settings {
    fn clone(&self) -> (r: Self)
        ensures
            r@ == self@,
    {
        let path = match &self.path {
            Some(path) => Some(clone_path(path)),
            None => None,
        };
        D2Settings { path, arguments: clone_strings(&self.arguments) }
    }
}

impl D2Settings {
    /// The D2 settings of a settings file.
    pub fn from_settings(content: &SettingsContent) -> (r: D2Settings)
        ensures
            r@ == settings_of(*content),
    {
        let mut settings = D2Settings::default();
        if let Some(preview) = &content.markdown_preview {
            if let Some(d2) = &preview.d2 {
                if let Some(path) = &d2.path {
                    settings.path = Some(path_from(path.clone()));
                }
                if let Some(arguments) = &d2.arguments {
                    settings.arguments = clone_strings(arguments);
                }
            }
        }
        settings
    }

    /// Whether `other` are the same settings.
    pub fn same(&self, other: &D2Settings) -> (r: bool)
        ensures
            r == same_settings(self@, other@),
    {
        let same_binary = match (&self.path, &other.path) {
            (Some(a), Some(b)) => paths_equal(a, b),
            (None, None) => true,
            _ => false,
        };
        same_binary && same_texts(&self.arguments, &other.arguments)
    }
}

} // verus!
