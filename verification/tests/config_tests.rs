use copydog::config::{
    assemble_config, plan_rules, resolve_source, ConfigBuilder, ConfigError, FileType, RuleMap,
};

const CONFIG: &'static str = r#"
source = "."
[fbx]
target = "../destination/models"
ignore = ["ignore"]

[png]
target = "../destination/textures"

["*"]
target = "../destination"
"#;

#[test]
fn parse_test() {
    let mut builder = ConfigBuilder::new();
    builder.toml(CONFIG);
    let decl = builder.parse().expect("declaration parses");
    let root = builder.source_request(&decl).expect("source resolves");
    assert_eq!(root, ".");

    let plan = plan_rules(&decl, "/work").expect("categories resolve");
    assert_eq!(plan.len(), 3);
    let config = assemble_config("/work".to_string(), plan);
    assert_eq!(config.source, "/work");
    assert_eq!(config.filetypes.len(), 3);

    let fbx = config.rule_for("fbx").expect("fbx rule");
    assert_eq!(fbx.target, "/work/../destination/models");
    assert_eq!(fbx.ignore, Some(vec!["/work/ignore".to_string()]));

    let png = config.rule_for("png").expect("png rule");
    assert_eq!(png.target, "/work/../destination/textures");
    assert_eq!(png.ignore, None);

    let other = config.rule_for("xyz").expect("wildcard rule");
    assert_eq!(other.target, "/work/../destination");
}

#[test]
fn builder_without_declaration_watches_current_dir() {
    let builder = ConfigBuilder::new();
    let decl = builder.parse().expect("default declaration parses");
    let root = builder.source_request(&decl).expect("source resolves");
    assert_eq!(root, ".");
}

#[test]
fn relative_source_resolves_against_working_dir() {
    let mut builder = ConfigBuilder::new();
    builder.toml("source = \"assets\"");
    builder.working_dir("/home/me");
    let decl = builder.parse().unwrap();
    assert_eq!(builder.source_request(&decl).unwrap(), "/home/me/assets");
}

#[test]
fn absolute_source_ignores_working_dir() {
    let mut builder = ConfigBuilder::new();
    builder.toml("source = \"/data/assets\"");
    builder.working_dir("/home/me");
    let decl = builder.parse().unwrap();
    assert_eq!(builder.source_request(&decl).unwrap(), "/data/assets");
}

#[test]
fn missing_source_is_invalid_structure() {
    let mut builder = ConfigBuilder::new();
    builder.toml("[png]\ntarget = \"x\"");
    let decl = builder.parse().unwrap();
    assert_eq!(
        builder.source_request(&decl),
        Err(ConfigError::InvalidStructure("source".to_string()))
    );
}

#[test]
fn non_string_source_is_invalid_structure() {
    let mut builder = ConfigBuilder::new();
    builder.toml("source = 5");
    let decl = builder.parse().unwrap();
    assert_eq!(
        builder.source_request(&decl),
        Err(ConfigError::InvalidStructure("source".to_string()))
    );
}

#[test]
fn unparsable_declaration_is_malformed_input() {
    let mut builder = ConfigBuilder::new();
    builder.toml("this is not = = toml");
    assert_eq!(builder.parse(), Err(ConfigError::MalformedInput));
}

#[test]
fn duplicate_table_header_is_malformed_input() {
    let mut builder = ConfigBuilder::new();
    builder.toml("source = \".\"\n[png]\ntarget = \"a\"\n[png]\ntarget = \"b\"");
    assert_eq!(builder.parse(), Err(ConfigError::MalformedInput));
}

#[test]
fn category_without_target_is_rejected() {
    let mut builder = ConfigBuilder::new();
    builder.toml("source = \".\"\n[png]\nignore = [\"x\"]");
    let decl = builder.parse().unwrap();
    assert_eq!(
        plan_rules(&decl, "/s"),
        Err(ConfigError::InvalidStructure("target missing".to_string()))
    );
}

#[test]
fn non_string_target_is_rejected() {
    let mut builder = ConfigBuilder::new();
    builder.toml("source = \".\"\n[png]\ntarget = 3");
    let decl = builder.parse().unwrap();
    assert_eq!(
        plan_rules(&decl, "/s"),
        Err(ConfigError::InvalidStructure("target not a string".to_string()))
    );
}

#[test]
fn non_list_ignore_is_rejected() {
    let mut builder = ConfigBuilder::new();
    builder.toml("source = \".\"\n[png]\ntarget = \"t\"\nignore = \"x\"");
    let decl = builder.parse().unwrap();
    assert_eq!(
        plan_rules(&decl, "/s"),
        Err(ConfigError::InvalidStructure("ignore not a list of strings".to_string()))
    );
}

#[test]
fn ignore_with_non_string_entry_is_rejected() {
    let mut builder = ConfigBuilder::new();
    builder.toml("source = \".\"\n[png]\ntarget = \"t\"\nignore = [\"a\", 2]");
    let decl = builder.parse().unwrap();
    assert_eq!(
        plan_rules(&decl, "/s"),
        Err(ConfigError::InvalidStructure("ignore not a list of strings".to_string()))
    );
}

#[test]
fn ignore_paths_resolve_against_source() {
    let mut builder = ConfigBuilder::new();
    builder.toml("source = \".\"\n[png]\ntarget = \"t\"\nignore = [\"a\", \"/abs/b\"]");
    let decl = builder.parse().unwrap();
    let plan = plan_rules(&decl, "/s").unwrap();
    assert_eq!(plan.len(), 1);
    assert_eq!(plan[0].0, "png");
    assert_eq!(plan[0].1.target, "/s/t");
    assert_eq!(
        plan[0].1.ignore,
        Some(vec!["/s/a".to_string(), "/abs/b".to_string()])
    );
}

#[test]
fn resolution_succeeds_while_no_directory_exists() {
    // resolving a declaration consults nothing on disk: targets and
    // ignore folders that do not exist yet never fail the plan
    let mut builder = ConfigBuilder::new();
    builder.toml(
        "source = \".\"\n[png]\ntarget = \"no/such/dir\"\nignore = [\"also/missing\"]",
    );
    let decl = builder.parse().unwrap();
    let plan = plan_rules(&decl, "/nowhere/at/all").unwrap();
    assert_eq!(plan[0].1.target, "/nowhere/at/all/no/such/dir");
}

#[test]
fn later_insertion_wins_for_same_key() {
    let first = FileType { target: "/dest/a".to_string(), ignore: None };
    let second = FileType { target: "/dest/b".to_string(), ignore: None };
    let mut rules = RuleMap::new();
    rules.insert("png".to_string(), first);
    rules.insert("png".to_string(), second.clone());
    assert_eq!(rules.get("png"), Some(&second));
    assert_eq!(rules.get("fbx"), None);
}

#[test]
fn assembled_config_keeps_last_rule_per_key() {
    let rules = vec![
        ("png".to_string(), FileType { target: "/one".to_string(), ignore: None }),
        ("png".to_string(), FileType { target: "/two".to_string(), ignore: None }),
    ];
    let config = assemble_config("/s".to_string(), rules);
    assert_eq!(config.rule_for("png").unwrap().target, "/two");
}

#[test]
fn resolve_source_free_function_matches_builder() {
    let mut builder = ConfigBuilder::new();
    builder.toml("source = \"rel\"");
    let decl = builder.parse().unwrap();
    assert_eq!(resolve_source(&decl, &None).unwrap(), "rel");
    assert_eq!(
        resolve_source(&decl, &Some("/wd".to_string())).unwrap(),
        "/wd/rel"
    );
}
