use poke_escape_server::error::ErrorKind;
use poke_escape_server::map::legacy::{MapIndex, MapWalker};
use poke_escape_server::map::{ConfValue, MapInfo, MapPlaces, WIDTH};
use poke_escape_server::version::SemVer;
use poke_escape_server::Config;

fn table(entries: Vec<(&str, ConfValue)>) -> ConfValue {
    ConfValue::Table(
        entries
            .into_iter()
            .map(|(k, v)| (k.to_string(), v))
            .collect(),
    )
}

fn s(text: &str) -> ConfValue {
    ConfValue::Str(text.to_string())
}

fn map_entry(path: &str, version: &str) -> ConfValue {
    table(vec![("path", s(path)), ("version", s(version))])
}

fn config_with_one_map() -> ConfValue {
    table(vec![
        (
            "Maps",
            table(vec![
                ("version", s("1.0.0")),
                ("maps", ConfValue::Arr(vec![s("m1")])),
            ]),
        ),
        ("m1", map_entry("maps/m1.json", "0.1.0")),
    ])
}

#[test]
fn config_defaults() {
    let c = Config::new();
    assert_eq!(c.port, 1996);
    assert_eq!(c.host, "127.0.0.1");
    assert!(!c.verbose);
    assert_eq!(c.threads, 8);
    assert_eq!(c.config, "./config.toml");
}

#[test]
fn map_places_reads_a_map_table() {
    let places = MapPlaces::from_value(&config_with_one_map(), false).unwrap();
    assert_eq!(*places.version(), SemVer::new(1, 0, 0));
    assert_eq!(places.available_maps(), vec!["m1".to_string()]);
    assert_eq!(places.map_file("m1"), Some("maps/m1.json".to_string()));
    assert_eq!(places.get_author("m1"), None);
}

#[test]
fn missing_maps_table_is_field_not_exists() {
    let e = MapPlaces::from_value(&table(vec![]), false).unwrap_err();
    assert_eq!(e.kind(), ErrorKind::FieldNotExists("Maps".to_string()));
}

#[test]
fn missing_maps_version_is_field_not_exists() {
    let conf = table(vec![("Maps", table(vec![]))]);
    let e = MapPlaces::from_value(&conf, false).unwrap_err();
    assert_eq!(e.kind(), ErrorKind::FieldNotExists("Maps.version".to_string()));
}

#[test]
fn bad_maps_version_is_version_not_parsable() {
    let conf = table(vec![("Maps", table(vec![("version", s("vX"))]))]);
    let e = MapPlaces::from_value(&conf, false).unwrap_err();
    assert_eq!(e.kind(), ErrorKind::VersionNotParsable("vX".to_string()));
}

#[test]
fn missing_maps_list_is_field_not_exists() {
    let conf = table(vec![("Maps", table(vec![("version", s("1.0.0"))]))]);
    let e = MapPlaces::from_value(&conf, false).unwrap_err();
    assert_eq!(e.kind(), ErrorKind::FieldNotExists("Maps.maps".to_string()));
}

#[test]
fn unreadable_map_declarations_are_skipped() {
    let conf = table(vec![
        (
            "Maps",
            table(vec![
                ("version", s("1.0.0")),
                (
                    "maps",
                    ConfValue::Arr(vec![s("good"), s("absent"), s("broken"), ConfValue::Int(5)]),
                ),
            ]),
        ),
        ("good", map_entry("maps/good.json", "0.1.0")),
        ("broken", table(vec![("version", s("0.1.0"))])),
    ]);
    let places = MapPlaces::from_value(&conf, false).unwrap();
    assert_eq!(places.available_maps(), vec!["good".to_string()]);
}

#[test]
fn from_conf_one_reports_each_missing_field() {
    let e = MapInfo::from_conf_one(&table(vec![]), "m".to_string(), false).unwrap_err();
    assert_eq!(e.kind(), ErrorKind::FieldNotExists("m.path".to_string()));

    let e = MapInfo::from_conf_one(
        &table(vec![("path", s("p.json"))]),
        "m".to_string(),
        false,
    )
    .unwrap_err();
    assert_eq!(e.kind(), ErrorKind::FieldNotExists("m.version".to_string()));

    let e = MapInfo::from_conf_one(
        &table(vec![("path", s("p.json")), ("version", s("zzz"))]),
        "m".to_string(),
        false,
    )
    .unwrap_err();
    assert_eq!(e.kind(), ErrorKind::VersionNotParsable("zzz".to_string()));
}

#[test]
fn unsupported_format_is_refused() {
    let conf = table(vec![
        ("path", s("p.json")),
        ("version", s("0.1.0")),
        ("format", s("TOML")),
    ]);
    let e = MapInfo::from_conf_one(&conf, "m".to_string(), false).unwrap_err();
    assert_eq!(e.kind(), ErrorKind::FormatNotSupported);
}

#[test]
fn format_name_is_read_regardless_of_case() {
    let conf = table(vec![
        ("path", s("p.json")),
        ("version", s("0.1.0")),
        ("format", s("Json")),
    ]);
    assert!(MapInfo::from_conf_one(&conf, "m".to_string(), false).is_ok());
}

#[test]
fn authors_are_read_as_one_name_or_a_clean_list() {
    let conf = table(vec![
        ("path", s("p.json")),
        ("version", s("0.1.0")),
        ("author", s("ash")),
    ]);
    let info = MapInfo::from_conf_one(&conf, "m".to_string(), false).unwrap();
    assert_eq!(info.author(), Some("ash".to_string()));

    let conf = table(vec![
        ("path", s("p.json")),
        ("version", s("0.1.0")),
        ("author", ConfValue::Arr(vec![s("ash"), s("misty")])),
    ]);
    let info = MapInfo::from_conf_one(&conf, "m".to_string(), false).unwrap();
    assert_eq!(info.author(), Some("ashmisty".to_string()));

    let conf = table(vec![
        ("path", s("p.json")),
        ("version", s("0.1.0")),
        ("author", ConfValue::Arr(vec![s("ash"), ConfValue::Int(3)])),
    ]);
    let info = MapInfo::from_conf_one(&conf, "m".to_string(), false).unwrap();
    assert_eq!(info.author(), None);
}

#[test]
fn map_record_getters() {
    let conf = table(vec![("path", s("p.json")), ("version", s("0.2.1"))]);
    let mut info = MapInfo::from_conf_one(&conf, "m".to_string(), false).unwrap();
    assert_eq!(info.name(), "m");
    assert_eq!(info.file(), "p.json");
    assert_eq!(*info.version(), SemVer::new(0, 2, 1));
    assert!(!info.is_verbose());
    info.verbose();
    assert!(info.is_verbose());
    let e = info.get_map().unwrap_err();
    assert_eq!(e.kind(), ErrorKind::FieldNotExists("code".to_string()));
}

fn map_file_content() -> ConfValue {
    table(vec![
        ("name", s("m1")),
        ("features", ConfValue::Arr(vec![s("grass"), s("water")])),
        (
            "map",
            ConfValue::Arr(vec![
                ConfValue::Arr(vec![ConfValue::Int(1), ConfValue::Int(2)]),
                ConfValue::Arr(vec![]),
            ]),
        ),
    ])
}

#[test]
fn load_map_builds_padded_rows() {
    let places = MapPlaces::from_value(&config_with_one_map(), false).unwrap();
    let map = places.get("m1", &map_file_content()).unwrap();
    assert_eq!(map.name(), "m1");
    assert!(map.feature(&"grass".to_string()));
    assert!(!map.feature(&"rock".to_string()));
    assert_eq!(map.feature_list(), "grass, water");
    let rows = map.rows();
    assert_eq!(rows.len(), 2);
    assert_eq!(rows[0].len(), WIDTH);
    assert_eq!(rows[0][0], 1);
    assert_eq!(rows[0][1], 2);
    assert_eq!(rows[0][2], 0);
    assert_eq!(rows[1], vec![0u8; WIDTH]);
}

#[test]
fn load_map_refuses_bad_shapes() {
    let places = MapPlaces::from_value(&config_with_one_map(), false).unwrap();

    let e = places.get("m1", &table(vec![])).unwrap_err();
    assert_eq!(e.kind(), ErrorKind::FieldNotExists("name".to_string()));

    let no_rows = table(vec![("name", s("m1"))]);
    let e = places.get("m1", &no_rows).unwrap_err();
    assert_eq!(e.kind(), ErrorKind::FieldNotExists("map".to_string()));

    let wide = table(vec![
        ("name", s("m1")),
        (
            "map",
            ConfValue::Arr(vec![ConfValue::Arr(
                (0..WIDTH + 1).map(|_| ConfValue::Int(0)).collect(),
            )]),
        ),
    ]);
    let e = places.get("m1", &wide).unwrap_err();
    assert_eq!(e.kind(), ErrorKind::FieldNotExists("map".to_string()));

    let bad_features = table(vec![
        ("name", s("m1")),
        ("features", ConfValue::Arr(vec![ConfValue::Int(1)])),
        ("map", ConfValue::Arr(vec![])),
    ]);
    let e = places.get("m1", &bad_features).unwrap_err();
    assert_eq!(
        e.kind(),
        ErrorKind::FieldNotExists("features is not string".to_string())
    );
}

#[test]
fn feature_list_none_marker_means_no_features() {
    let places = MapPlaces::from_value(&config_with_one_map(), false).unwrap();
    let content = table(vec![
        ("name", s("m1")),
        ("features", ConfValue::Arr(vec![s("none")])),
        ("map", ConfValue::Arr(vec![])),
    ]);
    let map = places.get("m1", &content).unwrap();
    assert!(!map.feature(&"none".to_string()));
    assert_eq!(map.feature_list(), "");
}

#[test]
fn unknown_map_name_is_field_not_exists() {
    let places = MapPlaces::from_value(&config_with_one_map(), false).unwrap();
    let e = places.get("nope", &map_file_content()).unwrap_err();
    assert_eq!(e.kind(), ErrorKind::FieldNotExists("nope".to_string()));
}

#[test]
fn future_config_version_keeps_the_table_empty() {
    let conf = table(vec![
        (
            "Maps",
            table(vec![
                ("version", s("99.99.99")),
                ("maps", ConfValue::Arr(vec![s("m1")])),
            ]),
        ),
        ("m1", map_entry("maps/m1.json", "0.1.0")),
    ]);
    let places = MapPlaces::from_value(&conf, false).unwrap();
    assert!(places.available_maps().is_empty());
}

#[test]
fn legacy_listing_keeps_only_json_entries() {
    let paths = vec![
        "forest.json".to_string(),
        "readme.txt".to_string(),
        "cave.json".to_string(),
        "json".to_string(),
    ];
    let names = MapIndex::available_maps(&paths);
    assert_eq!(names, vec!["forest".to_string(), "cave".to_string()]);
}

#[test]
fn map_walker_holds_its_path() {
    let w = MapWalker::new("./maps".to_string(), true).unwrap();
    assert_eq!(w.path(), "./maps");
    assert!(w.is_verbose());
}
