use vstd::prelude::*;

verus! {

/// The language a plugin is written in.
#[derive(Debug, Clone, Copy, PartialEq, Eq, Structural)]
pub enum PluginType {
    Js,
    Rust,
}

/// A command a plugin contributes.
#[derive(Debug, Clone, PartialEq, Eq)]
pub struct Command {
    pub id: String,
    pub title: String,
    pub category: Option<String>,
    pub icon: Option<String>,
}

/// A language a plugin contributes.
#[derive(Debug, Clone, PartialEq, Eq)]
pub struct Language {
    pub id: String,
    pub extensions: Vec<String>,
    pub aliases: Option<Vec<String>>,
}

/// A colour theme a plugin contributes.
#[derive(Debug, Clone, PartialEq, Eq)]
pub struct Theme {
    pub id: String,
    pub label: String,
    pub path: String,
}

/// A panel a plugin contributes.
#[derive(Debug, Clone, PartialEq, Eq)]
pub struct View {
    pub id: String,
    pub name: String,
    pub icon: Option<String>,
}

/// A key binding a plugin contributes.
#[derive(Debug, Clone, PartialEq, Eq)]
pub struct Keybinding {
    pub command: String,
    pub key: String,
    pub when: Option<String>,
}

/// Everything a plugin adds to the editor.
#[derive(Debug, Clone, PartialEq, Eq)]
pub struct Contributions {
    pub commands: Option<Vec<Command>>,
    pub languages: Option<Vec<Language>>,
    pub themes: Option<Vec<Theme>>,
    pub views: Option<Vec<View>>,
    pub keybindings: Option<Vec<Keybinding>>,
}

/// The declarative descriptor of a plugin, read from its `plugin.json`.
#[derive(Debug, Clone, PartialEq, Eq)]
pub struct PluginManifest {
    pub id: String,
    pub name: String,
    pub version: String,
    pub description: Option<String>,
    pub author: Option<String>,
    pub plugin_type: PluginType,
    pub main: String,
    pub activation_events: Vec<String>,
    pub contributes: Option<Contributions>,
    pub permissions: Vec<String>,
    pub enabled: bool,
}

/// A plugin that was loaded: its manifest, its directory, and for a
/// JavaScript plugin the text of its main file.
#[derive(Debug, Clone, PartialEq, Eq)]
pub struct LoadedPlugin {
    pub manifest: PluginManifest,
    pub path: String,
    pub content: Option<String>,
}

/// Whether loading a plugin of this manifest reads its main file.
pub fn needs_main_content(manifest: &PluginManifest) -> (r: bool)
    ensures
        r == (manifest.plugin_type == PluginType::Js),
{
    manifest.plugin_type == PluginType::Js
}

} // verus!
