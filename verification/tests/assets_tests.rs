use contemporary::assets::{
    parse_asset_url, preferred_icon, sources_for_scheme, sources_for_url,
    BundledContemporaryIconDescriptor, BundledContemporaryIcons, IconAssetSource,
    IconThemeAssetSource, WindowControl, WindowControlsAssetSource, icon_request, query_value,
};

#[test]
fn parses_an_icon_url() {
    let url = parse_asset_url("icon://breeze/document-open?size=32").unwrap();
    assert_eq!(url.scheme, "icon");
    assert_eq!(url.host, Some("breeze".to_string()));
    assert_eq!(url.path, "/document-open");
    assert_eq!(url.query_pairs, vec![("size".to_string(), "32".to_string())]);
    assert!(parse_asset_url("not a url").is_none());
}

#[test]
fn icon_asset_source_requests() {
    let request = IconAssetSource::icon_request("icon://breeze/document-open?size=32").unwrap();
    assert_eq!(request.name, "document-open");
    assert_eq!(request.size, Some("32".to_string()));
    assert_eq!(request.theme, Some("breeze".to_string()));
    let request = IconAssetSource::icon_request("icon://breeze/go-up").unwrap();
    assert_eq!(request.size, None);
    assert!(IconAssetSource::icon_request("http://example.com/go-up").is_none());
    assert!(IconAssetSource::icon_request("go-up").is_none());
}

#[test]
fn icon_theme_requests() {
    let url = parse_asset_url("icon://theme/list-add?x=1&size=16&size=24").unwrap();
    let request = icon_request(&url).unwrap();
    assert_eq!(request.name, "list-add");
    assert_eq!(request.size, Some("16".to_string()));
    assert_eq!(query_value(&url.query_pairs, "x"), Some("1".to_string()));
    assert_eq!(query_value(&url.query_pairs, "y"), None);
    assert_eq!(IconThemeAssetSource.scheme(), "icon");
}

#[test]
fn window_controls() {
    let control = |path: &str| WindowControlsAssetSource::control(&parse_asset_url(path).unwrap());
    assert!(control("window-controls:/close") == Some(WindowControl::Close));
    assert!(control("window-controls:/min") == Some(WindowControl::Minimise));
    assert!(control("window-controls:/max") == Some(WindowControl::Maximise));
    assert!(control("window-controls:/res") == Some(WindowControl::Restore));
    assert!(control("window-controls:/other").is_none());
    assert!(control("icon:/close").is_none());
    assert_eq!(WindowControlsAssetSource.scheme(), "window-controls");
}

#[test]
fn descriptors_of_bundled_paths() {
    let d = BundledContemporaryIcons::path_to_descriptor("actions/16/document-open.svg").unwrap();
    assert_eq!(d.category, "actions");
    assert_eq!(d.size, 16);
    assert_eq!(d.name, "document-open");
    let d = BundledContemporaryIcons::path_to_descriptor("x/places/+8/folder.svg").unwrap();
    assert_eq!(d.category, "places");
    assert_eq!(d.size, 8);
    assert!(BundledContemporaryIcons::path_to_descriptor("a/b/x.svg").is_none());
    assert!(BundledContemporaryIcons::path_to_descriptor("16/x.svg").is_none());
    assert!(BundledContemporaryIcons::path_to_descriptor("a/256/x.svg").is_none());
    assert!(BundledContemporaryIcons::path_to_descriptor("a/16/x.png").is_none());
    assert!(BundledContemporaryIcons::path_to_descriptor("a/-1/x.svg").is_none());
    assert!(BundledContemporaryIcons::path_to_descriptor("a/+/x.svg").is_none());
}

#[test]
fn sizes_of_a_bundled_icon() {
    let paths = vec![
        "actions/16/document-open.svg".to_string(),
        "actions/24/document-open.svg".to_string(),
        "actions/16/document-save.svg".to_string(),
        "actions/big/document-open.svg".to_string(),
        "actions/32/my-document-open.svg".to_string(),
    ];
    let sizes = BundledContemporaryIcons::sizes(&paths, "document-open");
    let found: Vec<(String, u8)> = sizes.iter().map(|d| (d.name.clone(), d.size)).collect();
    assert_eq!(
        found,
        vec![
            ("document-open".to_string(), 16),
            ("document-open".to_string(), 24),
            ("my-document-open".to_string(), 32),
        ]
    );
}

#[test]
fn path_of_a_bundled_icon() {
    let d = BundledContemporaryIconDescriptor {
        name: "go-up".to_string(),
        category: "actions".to_string(),
        size: 128,
    };
    assert_eq!(BundledContemporaryIcons::icon_path(&d), "actions/128/go-up.svg");
    let d = BundledContemporaryIconDescriptor { size: 7, ..d };
    assert_eq!(BundledContemporaryIcons::icon_path(&d), "actions/7/go-up.svg");
    let d = BundledContemporaryIconDescriptor { size: 48, ..d };
    assert_eq!(BundledContemporaryIcons::icon_path(&d), "actions/48/go-up.svg");
}

fn icons(sizes: &[u8]) -> Vec<BundledContemporaryIconDescriptor> {
    sizes
        .iter()
        .map(|&size| BundledContemporaryIconDescriptor {
            name: "i".to_string(),
            category: "c".to_string(),
            size,
        })
        .collect()
}

#[test]
fn preferred_icon_sizes() {
    assert_eq!(preferred_icon(&icons(&[16, 32, 24]), Some(30)), Some(2));
    assert_eq!(preferred_icon(&icons(&[16, 32, 24]), Some(32)), Some(1));
    assert_eq!(preferred_icon(&icons(&[16, 32, 24]), Some(10)), Some(0));
    assert_eq!(preferred_icon(&icons(&[16, 16]), Some(20)), Some(1));
    assert_eq!(preferred_icon(&icons(&[32, 32]), Some(10)), Some(0));
    assert_eq!(preferred_icon(&icons(&[32, 24]), None), Some(1));
    assert_eq!(preferred_icon(&icons(&[]), Some(16)), None);
}

#[test]
fn sources_by_scheme() {
    let schemes = vec!["icon".to_string(), "window-controls".to_string(), "icon".to_string()];
    assert_eq!(sources_for_scheme(&schemes, "icon"), vec![0, 2]);
    assert_eq!(sources_for_scheme(&schemes, "file"), Vec::<usize>::new());
    let (url, sources) = sources_for_url("window-controls:/min", &schemes).unwrap();
    assert_eq!(url.path, "/min");
    assert_eq!(sources, vec![1]);
    assert!(sources_for_url("::", &schemes).is_none());
}
