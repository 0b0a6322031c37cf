use mide_core::{
    bundled_plugin, needs_main_content, plugin_not_found, LoadedPlugin, PluginManager,
    PluginManifest, PluginType, PRETTIER_INDEX, PRETTIER_MANIFEST,
};

fn manifest(id: &str, plugin_type: PluginType) -> PluginManifest {
    PluginManifest {
        id: id.to_string(),
        name: id.to_string(),
        version: "1.0.0".to_string(),
        description: None,
        author: None,
        plugin_type,
        main: "index.js".to_string(),
        activation_events: vec!["*".to_string()],
        contributes: None,
        permissions: Vec::new(),
        enabled: true,
    }
}

fn loaded(id: &str) -> LoadedPlugin {
    LoadedPlugin { manifest: manifest(id, PluginType::Js), path: format!("/plugins/{}", id), content: Some("x".to_string()) }
}

#[test]
fn manager_loads_and_unloads() {
    let mut m = PluginManager::new("/plugins".to_string());
    assert_eq!(m.plugin_dir(), "/plugins");
    assert!(m.get_plugin("auto-save").is_none());
    m.insert_plugin("auto-save".to_string(), loaded("auto-save"));
    m.insert_plugin("git-lens".to_string(), loaded("git-lens"));
    assert_eq!(m.get_plugin("auto-save"), Some(&loaded("auto-save")));
    assert_eq!(m.get_loaded_plugins().len(), 2);
    m.insert_plugin("auto-save".to_string(), loaded("auto-save"));
    assert_eq!(m.get_loaded_plugins().len(), 2);
    assert_eq!(m.unload_plugin("auto-save"), Ok(()));
    assert_eq!(m.unload_plugin("auto-save"), Err("Plugin auto-save not loaded".to_string()));
    assert_eq!(m.get_loaded_plugins(), vec![&loaded("git-lens")]);
}

#[test]
fn plugin_messages_and_kinds() {
    assert_eq!(plugin_not_found("x"), "Plugin x not found");
    assert!(needs_main_content(&manifest("a", PluginType::Js)));
    assert!(!needs_main_content(&manifest("a", PluginType::Rust)));
}

#[test]
fn bundled_plugins() {
    let (m, i) = bundled_plugin("prettier-format").unwrap();
    assert_eq!(m, PRETTIER_MANIFEST);
    assert_eq!(i, PRETTIER_INDEX);
    assert!(m.contains("\"id\": \"prettier-format\""));
    assert!(bundled_plugin("auto-save").unwrap().1.contains("Auto-saving"));
    assert!(bundled_plugin("git-lens").is_ok());
    assert!(bundled_plugin("bracket-pair-colorizer").is_ok());
    assert_eq!(bundled_plugin("nope"), Err("Unknown plugin: nope".to_string()));
}
