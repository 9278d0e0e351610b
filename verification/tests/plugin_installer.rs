use perch::plugin_installer::{
    decide_install, dirs, extract_version, install_paths, join, opencode_config_dir,
    registration_for, InstallDecision, Registration, RegistrationError, PLUGIN_ENTRY,
    PLUGIN_VERSION,
};

#[test]
fn version_marker() {
    assert_eq!(extract_version("// Version: 0.2.0\nexport default {}"), Some("0.2.0".to_string()));
    assert_eq!(extract_version("/* perch */\n// Version:   1.4.2  \r\n"), Some("1.4.2".to_string()));
    assert_eq!(extract_version("// Version: 0.1.0\n// Version: 0.3.0\n"), Some("0.1.0".to_string()));
    assert_eq!(extract_version("  // Version: 0.1.0\n"), None);
    assert_eq!(extract_version("//Version: 0.1.0"), None);
    assert_eq!(extract_version("// Version: "), Some(String::new()));
    assert_eq!(extract_version(""), None);
    assert_eq!(extract_version("\n\n// Version: 9"), Some("9".to_string()));
}

#[test]
fn extract_version_agrees_with_lines() {
    let samples = [
        "a\r\nb\r\n// Version: x\r",
        "// Version: last\r",
        "\r\n// Version: y",
        "x\n\r\n// Version: \t z \n",
    ];
    for s in samples {
        let expected = s
            .lines()
            .find_map(|l| l.strip_prefix("// Version: ").map(|r| r.trim().to_string()));
        assert_eq!(extract_version(s), expected, "{:?}", s);
    }
}

#[test]
fn install_decisions() {
    assert_eq!(decide_install(None), InstallDecision::Install);
    assert_eq!(decide_install(Some("no marker")), InstallDecision::Install);
    assert_eq!(decide_install(Some("// Version: 0.1.9\n")), InstallDecision::Install);
    assert_eq!(decide_install(Some("// Version: 0.2.0\n")), InstallDecision::KeepInstalled);
    assert_eq!(decide_install(Some("// Version: 0.3.0\n")), InstallDecision::KeepInstalled);
    // the versions are compared as strings
    assert_eq!(decide_install(Some("// Version: 0.10.0\n")), InstallDecision::Install);
    assert_eq!(PLUGIN_VERSION, "0.2.0");
}

#[test]
fn config_directories() {
    assert_eq!(dirs(Some("/x/cfg"), Some("/home/u")), Some("/x/cfg".to_string()));
    assert_eq!(dirs(None, Some("/home/u")), Some("/home/u/.config".to_string()));
    assert_eq!(dirs(None, Some("/home/u/")), Some("/home/u/.config".to_string()));
    assert_eq!(dirs(None, None), None);
    assert_eq!(opencode_config_dir(None, Some("/home/u")), Some("/home/u/.config/opencode".to_string()));
    assert_eq!(opencode_config_dir(Some(""), None), Some("opencode".to_string()));
    assert_eq!(opencode_config_dir(None, None), None);
}

#[test]
fn join_agrees_with_pathbuf() {
    for base in ["", "/", "a", "a/", "/home/u", "/home/u/"] {
        let expected = std::path::Path::new(base).join("opencode");
        assert_eq!(join(base, "opencode"), expected.to_str().unwrap());
    }
}

#[test]
fn paths_under_config_dir() {
    let p = install_paths("/c/opencode");
    assert_eq!(p.plugin_dir, "/c/opencode/plugin");
    assert_eq!(p.plugin_path, "/c/opencode/plugin/perch-bridge.js");
    assert_eq!(p.config_path, "/c/opencode/opencode.jsonc");
}

fn written(r: Result<Registration, RegistrationError>) -> serde_json::Value {
    match r {
        Ok(Registration::Write(text)) => {
            assert!(text.ends_with('\n'));
            serde_json::from_str(&text).unwrap()
        }
        Ok(Registration::AlreadyRegistered) => panic!("expected a write"),
        Err(e) => panic!("unexpected error {:?}", e),
    }
}

#[test]
fn fresh_configuration() {
    let r = registration_for(None);
    let text = match &r {
        Ok(Registration::Write(text)) => text.clone(),
        _ => panic!("expected a write"),
    };
    let mut expected = serde_json::Map::new();
    expected.insert("$schema".to_string(), "https://opencode.ai/config.json".into());
    expected.insert("plugin".to_string(), serde_json::Value::Array(vec![PLUGIN_ENTRY.into()]));
    let expected = serde_json::Value::Object(expected);
    assert_eq!(text, serde_json::to_string_pretty(&expected).unwrap() + "\n");
    assert_eq!(written(r), expected);
}

#[test]
fn unparsable_configuration_is_replaced() {
    let v = written(registration_for(Some("{ \"theme\": \"dark\", // comment\n }")));
    assert_eq!(v.as_object().unwrap().len(), 2);
    assert_eq!(v["$schema"], "https://opencode.ai/config.json");
    assert_eq!(v["plugin"], serde_json::Value::Array(vec![PLUGIN_ENTRY.into()]));
}

#[test]
fn existing_plugins_are_kept() {
    let v = written(registration_for(Some(r#"{"theme":"dark","plugin":["./other.js", 3]}"#)));
    assert_eq!(v["theme"], "dark");
    assert_eq!(v.as_object().unwrap().len(), 2);
    assert_eq!(v["plugin"][0], "./other.js");
    assert_eq!(v["plugin"][1], 3);
    assert_eq!(v["plugin"][2], PLUGIN_ENTRY);
}

#[test]
fn registered_configuration_is_left_alone() {
    let r = registration_for(Some(r#"{"plugin":["./plugin/perch-bridge.js"]}"#));
    assert!(matches!(r, Ok(Registration::AlreadyRegistered)));
}

#[test]
fn registering_twice_writes_once() {
    let first = match registration_for(Some(r#"{"plugin":[]}"#)) {
        Ok(Registration::Write(text)) => text,
        _ => panic!("expected a write"),
    };
    assert!(matches!(registration_for(Some(&first)), Ok(Registration::AlreadyRegistered)));
}

#[test]
fn unregistrable_configurations() {
    assert_eq!(registration_for(Some("[1, 2]")).err(), Some(RegistrationError::ConfigNotAnObject));
    assert_eq!(
        registration_for(Some(r#"{"plugin":"./x.js"}"#)).err(),
        Some(RegistrationError::PluginsNotAnArray)
    );
}

#[test]
fn version_marker_reads_back() {
    for v in ["0.2.0", "", "1.0.0-beta+build"] {
        for body in ["", "export {}\n", "// Version: 9.9.9\n"] {
            let content = format!("// Version: {}\n{}", v, body);
            assert_eq!(extract_version(&content), Some(v.to_string()));
        }
    }
}
