use vstd::prelude::*;

use crate::registry::Registry;
use crate::manifest::LoadedPlugin;
use crate::text::str_eq;

verus! {

/// The message for a plugin id that has no manifest.
pub fn plugin_not_found(plugin_id: &str) -> (r: String)
    ensures
        r@ == "Plugin "@ + plugin_id@ + " not found"@,
{
    String::from_str("Plugin ").concat(plugin_id).concat(" not found")
}

/// The plugins that were loaded, by plugin id, and the directory they live in.
pub struct PluginManager {
    plugins: Registry<LoadedPlugin>,
    plugin_dir: String,
}

impl PluginManager {
    /// The loaded plugins, by plugin id.
    pub closed spec fn loaded(&self) -> Map<Seq<char>, LoadedPlugin> {
        self.plugins@
    }

    /// The ids of the loaded plugins, in the order they were loaded.
    pub closed spec fn load_order(&self) -> Seq<Seq<char>> {
        self.plugins.order()
    }

    /// The directory the plugins live in.
    pub closed spec fn dir(&self) -> Seq<char> {
        self.plugin_dir@
    }

    pub closed spec fn wf(&self) -> bool {
        self.plugins.wf()
    }

    /// A manager of the plugins under `plugin_dir`, with none loaded.
    pub fn new(plugin_dir: String) -> (r: Self)
        ensures
            r.wf(),
            r.loaded() == Map::<Seq<char>, LoadedPlugin>::empty(),
            r.dir() == plugin_dir@,
    {
        PluginManager { plugins: Registry::new(), plugin_dir }
    }

    /// The directory the plugins live in.
    pub fn plugin_dir(&self) -> (r: &str)
        ensures
            r@ == self.dir(),
    {
        self.plugin_dir.as_str()
    }

    /// Records `plugin` as loaded under `plugin_id`, in place of any plugin
    /// loaded under that id before.
    pub fn insert_plugin(&mut self, plugin_id: String, plugin: LoadedPlugin)
        requires
            old(self).wf(),
        ensures
            final(self).wf(),
            final(self).loaded() == old(self).loaded().insert(plugin_id@, plugin),
            final(self).dir() == old(self).dir(),
    {
        let _ = self.plugins.remove(plugin_id.as_str());
        let _ = self.plugins.register(plugin_id, plugin);
    }

    /// Forgets the plugin loaded under `plugin_id`; an error names an id that
    /// is not loaded.
    pub fn unload_plugin(&mut self, plugin_id: &str) -> (r: Result<(), String>)
        requires
            old(self).wf(),
        ensures
            final(self).wf(),
            final(self).loaded() == old(self).loaded().remove(plugin_id@),
            final(self).dir() == old(self).dir(),
            r is Ok <==> old(self).loaded().contains_key(plugin_id@),
            r matches Err(m) ==> m@ == "Plugin "@ + plugin_id@ + " not loaded"@,
    {
        match self.plugins.remove(plugin_id) {
            Some(_) => Ok(()),
            None => Err(String::from_str("Plugin ").concat(plugin_id).concat(" not loaded")),
        }
    }

    /// Every loaded plugin, once each: the `i`-th is the one loaded under
    /// the `i`-th id of `load_order`.
    pub fn get_loaded_plugins(&self) -> (r: Vec<&LoadedPlugin>)
        requires
            self.wf(),
        ensures
            r@.len() == self.load_order().len(),
            self.load_order().no_duplicates(),
            forall|k: Seq<char>| self.loaded().contains_key(k) <==> #[trigger] self.load_order().contains(k),
            forall|i: int| 0 <= i < r@.len() ==> *r@[i] == self.loaded()[#[trigger] self.load_order()[i]],
    {
        self.plugins.entries()
    }

    /// The plugin loaded under `plugin_id`, if any.
    pub fn get_plugin(&self, plugin_id: &str) -> (r: Option<&LoadedPlugin>)
        requires
            self.wf(),
        ensures
            r is None <==> !self.loaded().contains_key(plugin_id@),
            r matches Some(p) ==> *p == self.loaded()[plugin_id@],
    {
        self.plugins.lookup(plugin_id)
    }
}

/// The manifest of the bundled Prettier formatter plugin.
pub const PRETTIER_MANIFEST: &'static str = r#"{
  "id": "prettier-format",
  "name": "Prettier Formatter",
  "version": "1.0.0",
  "description": "Format your code with Prettier",
  "author": "MIDE Team",
  "type": "js",
  "main": "index.js",
  "activation_events": ["onCommand:prettier.format"],
  "contributes": {
    "commands": [
      {
        "id": "prettier.format",
        "title": "Format Document",
        "category": "Prettier"
      }
    ]
  },
  "permissions": ["fs:read", "fs:write"],
  "enabled": true
}"#;

/// The main file of the bundled Prettier formatter plugin.
pub const PRETTIER_INDEX: &'static str = r#"// Prettier Formatter Plugin
self.addEventListener('message', (e) => {
  const { type, data } = e.data;
  if (type === 'activate') {
    console.log('Prettier formatter activated!');
  }
});
"#;

/// The manifest of the bundled bracket pair colorizer plugin.
pub const BRACKETS_MANIFEST: &'static str = r#"{
  "id": "bracket-pair-colorizer",
  "name": "Bracket Pair Colorizer",
  "version": "1.0.0",
  "description": "Colorize matching brackets",
  "author": "MIDE Team",
  "type": "js",
  "main": "index.js",
  "activation_events": ["*"],
  "contributes": {},
  "permissions": ["editor:read"],
  "enabled": true
}"#;

/// The main file of the bundled bracket pair colorizer plugin.
pub const BRACKETS_INDEX: &'static str = r#"// Bracket Pair Colorizer Plugin
self.addEventListener('message', (e) => {
  console.log('Bracket colorizer active');
});
"#;

/// The manifest of the bundled auto-save plugin.
pub const AUTO_SAVE_MANIFEST: &'static str = r#"{
  "id": "auto-save",
  "name": "Auto Save",
  "version": "1.0.0",
  "description": "Automatically save files after delay",
  "author": "MIDE Team",
  "type": "js",
  "main": "index.js",
  "activation_events": ["*"],
  "contributes": {},
  "permissions": ["fs:write"],
  "enabled": true
}"#;

/// The main file of the bundled auto-save plugin.
pub const AUTO_SAVE_INDEX: &'static str = r#"// Auto Save Plugin
let saveTimeout;
self.addEventListener('message', (e) => {
  const { type, data } = e.data;
  if (type === 'fileChange') {
    clearTimeout(saveTimeout);
    saveTimeout = setTimeout(() => {
      console.log('Auto-saving file...');
    }, 1000);
  }
});
"#;

/// The manifest of the bundled Git Lens plugin.
pub const GIT_LENS_MANIFEST: &'static str = r#"{
  "id": "git-lens",
  "name": "Git Lens",
  "version": "1.0.0",
  "description": "Enhanced Git integration",
  "author": "MIDE Team",
  "type": "js",
  "main": "index.js",
  "activation_events": ["onView:git"],
  "contributes": {},
  "permissions": ["git:read"],
  "enabled": true
}"#;

/// The main file of the bundled Git Lens plugin.
pub const GIT_LENS_INDEX: &'static str = r#"// Git Lens Plugin
self.addEventListener('message', (e) => {
  console.log('Git Lens activated');
});
"#;

/// The manifest and main file of the bundled plugin `plugin_id`, if there is one.
pub open spec fn bundled(plugin_id: Seq<char>) -> Option<(Seq<char>, Seq<char>)> {
    if plugin_id == "prettier-format"@ {
        Some((PRETTIER_MANIFEST@, PRETTIER_INDEX@))
    } else if plugin_id == "bracket-pair-colorizer"@ {
        Some((BRACKETS_MANIFEST@, BRACKETS_INDEX@))
    } else if plugin_id == "auto-save"@ {
        Some((AUTO_SAVE_MANIFEST@, AUTO_SAVE_INDEX@))
    } else if plugin_id == "git-lens"@ {
        Some((GIT_LENS_MANIFEST@, GIT_LENS_INDEX@))
    } else {
        None
    }
}

/// The `plugin.json` and `index.js` texts that installing the bundled plugin
/// `plugin_id` writes, or the message that no such plugin is bundled.
pub fn bundled_plugin(plugin_id: &str) -> (r: Result<(String, String), String>)
    ensures
        bundled(plugin_id@) matches Some(files) ==> (r matches Ok(texts) && texts.0@ == files.0
            && texts.1@ == files.1),
        bundled(plugin_id@) is None ==> (r matches Err(m) && m@ == "Unknown plugin: "@ + plugin_id@),
{
    if str_eq(plugin_id, "prettier-format") {
        Ok((String::from_str(PRETTIER_MANIFEST), String::from_str(PRETTIER_INDEX)))
    } else if str_eq(plugin_id, "bracket-pair-colorizer") {
        Ok((String::from_str(BRACKETS_MANIFEST), String::from_str(BRACKETS_INDEX)))
    } else if str_eq(plugin_id, "auto-save") {
        Ok((String::from_str(AUTO_SAVE_MANIFEST), String::from_str(AUTO_SAVE_INDEX)))
    } else if str_eq(plugin_id, "git-lens") {
        Ok((String::from_str(GIT_LENS_MANIFEST), String::from_str(GIT_LENS_INDEX)))
    } else {
        Err(String::from_str("Unknown plugin: ").concat(plugin_id))
    }
}

} // verus!
