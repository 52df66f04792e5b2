use pi_grok::theme_registry::{
    theme_json_paths,
    is_pi_theme_id, parse_pi_theme_id, theme_id, LoadError, ThemeDoc, ThemeFile, ThemeRegistry,
};

#[derive(Clone, Copy, Debug, PartialEq)]
struct Palette {
    dark: bool,
    text_primary: u32,
}

impl Palette {
    fn is_dark(&self) -> bool {
        self.dark
    }
}

const BUILTIN_THEME_NAMES: &[&str] = &[
    "alabaster", "amethyst", "anthracite", "basalt", "birch", "dark-abyss", "dark-arctic",
    "dark-aurora", "dark-catppuccin", "dark-cavern", "dark-copper", "dark-cosmos",
    "dark-cyberpunk", "dark-dracula", "dark-eclipse", "dark-ember", "dark-equinox",
    "dark-forest", "dark-github", "dark-gruvbox", "dark-lavender", "dark-lunar",
    "dark-midnight", "dark-monochrome", "dark-monokai", "dark-nebula", "dark-nord",
    "dark-ocean", "dark-one", "dark-poimandres", "dark-rainforest", "dark-reef", "dark-retro",
    "dark-rose-pine", "dark-sakura", "dark-slate", "dark-solarized", "dark-solstice",
    "dark-starfall", "dark-sunset", "dark-swamp", "dark-synthwave", "dark-taiga",
    "dark-terminal", "dark-tokyo-night", "dark-tundra", "dark-twilight", "dark-volcanic",
    "dark", "graphite", "light-arctic", "light-aurora-day", "light-canyon", "light-catppuccin",
    "light-cirrus", "light-coral", "light-cyberpunk", "light-dawn", "light-dunes",
    "light-eucalyptus", "light-forest", "light-frost", "light-github", "light-glacier",
    "light-gruvbox", "light-haze", "light-honeycomb", "light-lagoon", "light-lavender",
    "light-meadow", "light-mint", "light-monochrome", "light-ocean", "light-one", "light-opal",
    "light-orchard", "light-paper", "light-poimandres", "light-prism", "light-retro",
    "light-sand", "light-savanna", "light-solarized", "light-soleil", "light-sunset",
    "light-synthwave", "light-tokyo-night", "light-wetland", "light-zenith", "light",
    "limestone", "mahogany", "marble", "obsidian", "onyx", "pearl", "porcelain", "quartz",
    "sandstone", "titanium", "transparent-light", "transparent",
];

fn builtin_catalog() -> Vec<(String, Palette)> {
    BUILTIN_THEME_NAMES
        .iter()
        .map(|name| {
            let dark = name.starts_with("dark") || *name == "transparent";
            (name.to_string(), Palette { dark, text_primary: 0xd4d4d4 })
        })
        .collect()
}

fn file(path: &str, name: &str, text_primary: u32) -> ThemeFile<Palette> {
    ThemeFile {
        path: path.to_string(),
        doc: Ok(ThemeDoc {
            name: name.to_string(),
            palette: Ok(Palette { dark: true, text_primary }),
        }),
    }
}

#[test]
fn builtins_registered() {
    let mut registry = ThemeRegistry::empty(builtin_catalog());
    registry.reset_registry();
    registry.ensure_builtins();
    let list = registry.list_themes();
    let names: Vec<_> = list.iter().map(|t| t.name.as_str()).collect();
    assert_eq!(list.len(), BUILTIN_THEME_NAMES.len());
    assert!(names.contains(&"dark"));
    assert!(names.contains(&"light"));
    assert!(names.contains(&"transparent"));
    assert!(names.contains(&"transparent-light"));
    assert!(names.contains(&"dark-tokyo-night"));
    assert!(names.contains(&"alabaster"));
    let (id, theme) = registry.load_palette("pi:dark").unwrap();
    assert_eq!(id, "pi:dark");
    assert!(theme.is_dark());
}

#[test]
fn parse_id() {
    assert_eq!(parse_pi_theme_id("pi:dark").as_deref(), Some("dark"));
    assert_eq!(parse_pi_theme_id("pi:").as_deref(), None);
    assert_eq!(parse_pi_theme_id("dark").as_deref(), None);
}

#[test]
fn ids_round_trip_and_trim() {
    assert_eq!(theme_id("dark"), "pi:dark");
    assert_eq!(parse_pi_theme_id(&theme_id("dark-nord")).as_deref(), Some("dark-nord"));
    assert_eq!(parse_pi_theme_id("  pi:light \n").as_deref(), Some("light"));
    assert!(is_pi_theme_id("pi:custom"));
    assert!(!is_pi_theme_id("Pi:custom"));
    assert!(!is_pi_theme_id("  pi:   "));
}

#[test]
fn discover_custom_file() {
    let mut registry = ThemeRegistry::empty(builtin_catalog());
    let report =
        registry.init_discovery(vec![file("/p/.pi/themes/custom-test.json", "custom-test", 1)]);
    assert!(report.errors.is_empty(), "{:?}", report.errors);
    assert_eq!(report.loaded, BUILTIN_THEME_NAMES.len() + 1);
    let list = registry.list_themes();
    assert!(list.iter().any(|t| t.name == "custom-test"));
    let (id, _) = registry.load_palette("pi:custom-test").unwrap();
    assert_eq!(id, "pi:custom-test");
}

#[test]
fn first_registration_wins_and_errors_are_reported() {
    let mut registry = ThemeRegistry::empty(builtin_catalog());
    let report = registry.init_discovery(vec![
        file("/home/.pi/agent/themes/dark.json", "dark", 7),
        file("/home/.pi/agent/themes/mine.json", "mine", 1),
        file("/p/.pi/themes/mine.json", "mine", 2),
        ThemeFile { path: "/p/.pi/themes/bad.json".into(), doc: Err("expected value".into()) },
        ThemeFile {
            path: "/p/.pi/themes/unmapped.json".into(),
            doc: Ok(ThemeDoc { name: "unmapped".into(), palette: Err("bad color".into()) }),
        },
    ]);
    assert_eq!(report.skipped, 2);
    assert_eq!(report.loaded, BUILTIN_THEME_NAMES.len() + 1);
    assert_eq!(
        report.errors,
        vec![
            "/p/.pi/themes/bad.json: expected value".to_string(),
            "/p/.pi/themes/unmapped.json: bad color".to_string(),
        ]
    );
    let (_, dark) = registry.load_palette("pi:dark").unwrap();
    assert_eq!(dark.text_primary, 0xd4d4d4);
    let (_, mine) = registry.load_palette("pi:mine").unwrap();
    assert_eq!(mine.text_primary, 1);
    let listed = registry.list_themes();
    let mine_meta = listed.iter().find(|t| t.name == "mine").unwrap();
    assert_eq!(mine_meta.path.as_deref(), Some("/home/.pi/agent/themes/mine.json"));
    assert!(!mine_meta.builtin);
    assert_eq!(mine_meta.id, "pi:mine");
}

#[test]
fn listing_is_sorted_by_name() {
    let mut registry = ThemeRegistry::empty(builtin_catalog());
    registry.init_discovery(vec![file("/x/aaa.json", "aaa", 1), file("/x/zzz.json", "zzz", 2)]);
    let names: Vec<String> = registry.list_themes().into_iter().map(|t| t.name).collect();
    let mut sorted = names.clone();
    sorted.sort();
    assert_eq!(names, sorted);
    assert_eq!(names.first().map(String::as_str), Some("aaa"));
    assert_eq!(names.last().map(String::as_str), Some("zzz"));
}

#[test]
fn load_errors_name_the_id() {
    let mut registry = ThemeRegistry::empty(builtin_catalog());
    assert_eq!(
        registry.load_palette("dark").unwrap_err(),
        LoadError::InvalidName("dark".into())
    );
    let missing = registry.load_palette("pi:nope").unwrap_err();
    assert_eq!(missing.message(), "unknown Pi theme: pi:nope");
    assert_eq!(registry.apply_pi_theme("pi:light").unwrap().0, "pi:light");
}

#[test]
fn rediscover_picks_up_new_theme_files() {
    let mut registry = ThemeRegistry::empty(builtin_catalog());
    let first = registry.init_discovery(Vec::new());
    assert!(first.errors.is_empty(), "{:?}", first.errors);
    assert!(!registry.list_themes().iter().any(|t| t.name == "reload-new"));
    let (report, reapply) =
        registry.rediscover(vec![file("/p/.pi/themes/reload-new.json", "reload-new", 3)], "dark");
    assert!(report.errors.is_empty(), "{:?}", report.errors);
    assert!(reapply.is_none());
    assert!(registry.list_themes().iter().any(|t| t.name == "reload-new"));
    registry.load_palette("pi:reload-new").unwrap();
}

#[test]
fn rediscover_replaces_edited_files_and_removes_deleted_files() {
    let mut registry = ThemeRegistry::empty(builtin_catalog());
    let path = "/p/.pi/themes/reload-refresh.json";
    let report = registry.init_discovery(vec![file(path, "reload-refresh", 0xd4d4d4)]);
    assert!(report.errors.is_empty(), "{:?}", report.errors);
    let (_, before) = registry.load_palette("pi:reload-refresh").unwrap();

    let (report, reapply) =
        registry.rediscover(vec![file(path, "reload-refresh", 0x010203)], "pi:reload-refresh");
    assert!(report.errors.is_empty(), "{:?}", report.errors);
    let (_, after) = registry.load_palette("pi:reload-refresh").unwrap();
    assert_ne!(before.text_primary, after.text_primary);
    assert_eq!(reapply, Some(("pi:reload-refresh".to_string(), after)));

    let (report, reapply) = registry.rediscover(Vec::new(), "pi:reload-refresh");
    assert_eq!(
        report.errors,
        vec!["re-apply pi:reload-refresh: unknown Pi theme: pi:reload-refresh".to_string()]
    );
    assert!(reapply.is_none());
    assert!(!registry.list_themes().iter().any(|theme| theme.name == "reload-refresh"));
    assert!(registry.load_palette("pi:reload-refresh").is_err());
    assert_eq!(report.loaded, BUILTIN_THEME_NAMES.len());
}

#[test]
fn reset_forgets_everything_but_the_builtin_catalog() {
    let mut registry = ThemeRegistry::empty(builtin_catalog());
    registry.init_discovery(vec![file("/x/custom.json", "custom", 1)]);
    registry.reset_for_test();
    let list = registry.list_themes();
    assert_eq!(list.len(), BUILTIN_THEME_NAMES.len());
    assert!(list.iter().all(|t| t.builtin && t.path.is_none()));
}

#[test]
fn theme_json_paths_keeps_sorted_json_files() {
    let entries = vec![
        "/t/zeta.json".to_string(),
        "/t/readme.md".to_string(),
        "/t/Alpha.JSON".to_string(),
        "/t/.json".to_string(),
        "/t/beta.json".to_string(),
        "/t/noext".to_string(),
    ];
    assert_eq!(
        theme_json_paths(entries),
        vec![
            "/t/Alpha.JSON".to_string(),
            "/t/beta.json".to_string(),
            "/t/zeta.json".to_string(),
        ]
    );
}
