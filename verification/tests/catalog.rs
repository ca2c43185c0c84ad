use libwau::providers::curse::{
    flavor_id, headers, latest_matching, mod_url, search_form, search_url, CurseAddon,
    CurseAddonFile, CurseGetResponse, CurseSearchResponse, API_URL_BASE,
};
use libwau::providers::{Operation, Provider, ProviderError};
use libwau::toc::Toc;
use libwau::{Addon, Flavor};

fn curse() -> Provider {
    Provider::Curse("token".to_string())
}

fn file(id: Option<usize>, name: &str, versions: &[&str]) -> CurseAddonFile {
    CurseAddonFile {
        id,
        display_name: Some(name.to_string()),
        file_name: Some(format!("{}.zip", name)),
        release_type: Some(1),
        file_date: None,
        download_url: Some(format!("https://files.example/{}", name)),
        game_versions: Some(versions.iter().map(|v| v.to_string()).collect()),
        modules: None,
    }
}

fn entry(id: usize, name: Option<&str>, files: Option<Vec<CurseAddonFile>>) -> CurseAddon {
    CurseAddon {
        id,
        name: name.map(|n| n.to_string()),
        links: None,
        summary: None,
        status: None,
        download_count: None,
        is_featured: None,
        categories: None,
        authors: None,
        latest_files: files,
        date_created: None,
        date_modified: None,
        date_released: None,
        thumbs_up_count: None,
        rating: None,
    }
}

#[test]
fn flavor_numbers() {
    assert_eq!(flavor_id(Flavor::Retail), 517);
    assert_eq!(flavor_id(Flavor::Classic), 67408);
    assert_eq!(flavor_id(Flavor::ClassicBC), 73246);
    assert_eq!(flavor_id(Flavor::ClassicWOTLK), 73713);
    assert_eq!(flavor_id(Flavor::ClassicCata), 77522);
}

#[test]
fn every_directory_is_a_retail_installation() {
    assert_eq!(Flavor::from_dir_name("_retail_"), Flavor::Retail);
    assert_eq!(Flavor::from_dir_name("_classic_"), Flavor::Retail);
    assert_eq!(Flavor::from_dir_name(""), Flavor::Retail);
}

#[test]
fn request_addresses() {
    assert_eq!(API_URL_BASE, "https://api.curseforge.com/v1");
    assert_eq!(search_url(), "https://api.curseforge.com/v1/mods/search");
    assert_eq!(mod_url(0), "https://api.curseforge.com/v1/mods/0");
    assert_eq!(mod_url(7), "https://api.curseforge.com/v1/mods/7");
    assert_eq!(mod_url(10), "https://api.curseforge.com/v1/mods/10");
    assert_eq!(mod_url(3358), "https://api.curseforge.com/v1/mods/3358");
    assert_eq!(mod_url(usize::MAX), format!("https://api.curseforge.com/v1/mods/{}", usize::MAX));
}

#[test]
fn request_headers() {
    let expected: Vec<(String, String)> = vec![
        ("content-type".to_string(), "application/json".to_string()),
        ("accept".to_string(), "application/json".to_string()),
        ("user-agent".to_string(), "wau/v0.1.0".to_string()),
    ];
    assert_eq!(headers(), expected);
}

#[test]
fn search_form_fields() {
    let expected: Vec<(String, String)> = vec![
        ("gameId".to_string(), "1".to_string()),
        ("gameVersionTypeId".to_string(), "517".to_string()),
        ("searchFilter".to_string(), "bagnon".to_string()),
        ("pageSize".to_string(), "10".to_string()),
    ];
    assert_eq!(search_form("bagnon", Flavor::Retail), expected);
    assert_eq!(search_form("", Flavor::ClassicCata)[1].1, "77522");
    assert_eq!(search_form("a b&c", Flavor::Classic)[2].1, "a b&c");
}

#[test]
fn latest_matching_takes_the_greatest_identifier() {
    let files = vec![
        file(Some(10), "1.0", &["10.2.7"]),
        file(Some(30), "3.0", &["10.2.7", "10.2.6"]),
        file(Some(20), "2.0", &["10.2.7"]),
        file(Some(40), "4.0", &["4.4.0"]),
    ];
    assert_eq!(latest_matching(&files, "10.2.7"), Some(1));
    assert_eq!(latest_matching(&files, "10.2.6"), Some(1));
    assert_eq!(latest_matching(&files, "4.4.0"), Some(3));
    assert_eq!(latest_matching(&files, "1.15.0"), None);
    assert_eq!(latest_matching(&files, "10.2"), None);
    assert_eq!(latest_matching(&Vec::new(), "10.2.7"), None);
}

#[test]
fn latest_matching_takes_the_first_of_equals() {
    let files = vec![
        file(None, "a", &["1"]),
        file(None, "b", &["1"]),
        file(Some(0), "c", &["1"]),
        file(Some(0), "d", &["1"]),
    ];
    assert_eq!(latest_matching(&files, "1"), Some(2));
    assert_eq!(latest_matching(&files[..2].to_vec(), "1"), Some(0));
}

#[test]
fn a_file_without_versions_is_made_for_none() {
    let mut plain = file(Some(1), "a", &[]);
    assert_eq!(latest_matching(&vec![plain.clone()], ""), None);
    plain.game_versions = None;
    assert_eq!(latest_matching(&vec![plain], ""), None);
}

#[test]
fn to_addon_takes_version_and_address_of_the_latest_file() {
    let catalog_entry = entry(
        3358,
        Some("Bagnon"),
        Some(vec![file(Some(1), "10.2.1", &["10.2.7"]), file(Some(2), "10.2.2", &["10.2.7"])]),
    );
    let addon = catalog_entry.to_addon("10.2.7", &curse()).expect("a file matches");
    assert_eq!(
        addon,
        Addon {
            name: "Bagnon".to_string(),
            id: 3358,
            dirs: None,
            url: Some("https://files.example/10.2.2".to_string()),
            version: Some("10.2.2".to_string()),
            provider: curse(),
        }
    );
}

#[test]
fn to_addon_keeps_what_the_file_leaves_out() {
    let mut bare = file(Some(1), "x", &["1"]);
    bare.display_name = None;
    bare.download_url = None;
    let addon = entry(5, None, Some(vec![bare])).to_addon("1", &curse()).expect("a file matches");
    assert_eq!(addon.name, "");
    assert_eq!(addon.url, None);
    assert_eq!(addon.version, None);
    assert_eq!(addon.id, 5);
}

#[test]
fn to_addon_without_matching_file_is_an_error() {
    let expected =
        Err(ProviderError::NoMatchingFile { id: 9, game_version: "10.2.7".to_string() });
    assert_eq!(entry(9, Some("A"), None).to_addon("10.2.7", &curse()), expected);
    assert_eq!(entry(9, Some("A"), Some(vec![])).to_addon("10.2.7", &curse()), expected);
    assert_eq!(
        entry(9, Some("A"), Some(vec![file(Some(1), "v", &["4.4.0"])]))
            .to_addon("10.2.7", &curse()),
        expected
    );
}

#[test]
fn a_search_without_data_has_no_results() {
    let response = CurseSearchResponse { data: None };
    assert_eq!(response.to_addons("10.2.7", &curse()), Ok(vec![]));
    let response = CurseSearchResponse { data: Some(vec![]) };
    assert_eq!(response.to_addons("10.2.7", &curse()), Ok(vec![]));
}

#[test]
fn a_search_keeps_the_order_of_the_answer() {
    let response = CurseSearchResponse {
        data: Some(vec![
            entry(2, Some("B"), Some(vec![file(Some(1), "b1", &["1"])])),
            entry(1, Some("A"), Some(vec![file(Some(1), "a1", &["1"])])),
        ]),
    };
    let addons = response.to_addons("1", &curse()).expect("every entry has a file");
    let names: Vec<&str> = addons.iter().map(|a| a.name.as_str()).collect();
    assert_eq!(names, vec!["B", "A"]);
    assert_eq!(addons[0].version.as_deref(), Some("b1"));
}

#[test]
fn a_search_fails_with_the_first_entry_without_file() {
    let response = CurseSearchResponse {
        data: Some(vec![
            entry(1, Some("A"), Some(vec![file(Some(1), "a1", &["1"])])),
            entry(2, Some("B"), None),
            entry(3, Some("C"), None),
        ]),
    };
    assert_eq!(
        response.to_addons("1", &curse()),
        Err(ProviderError::NoMatchingFile { id: 2, game_version: "1".to_string() })
    );
}

#[test]
fn a_lookup_without_data_brings_nothing() {
    assert_eq!(CurseGetResponse { data: None }.to_addon("1", &curse()), None);
}

#[test]
fn a_lookup_brings_the_add_on_or_the_error() {
    let found = CurseGetResponse {
        data: Some(entry(1, Some("A"), Some(vec![file(Some(1), "a1", &["1"])]))),
    };
    let addon = found.to_addon("1", &curse()).expect("data").expect("a file matches");
    assert_eq!(addon.version.as_deref(), Some("a1"));
    assert_eq!(
        found.to_addon("2", &curse()),
        Some(Err(ProviderError::NoMatchingFile { id: 1, game_version: "2".to_string() }))
    );
}

#[test]
fn request_errors_name_operation_and_subject() {
    assert_eq!(
        ProviderError::lookup_failed(3358, "timeout".to_string()),
        ProviderError::Request {
            operation: Operation::Lookup,
            subject: "3358".to_string(),
            reason: "timeout".to_string(),
        }
    );
    assert_eq!(
        ProviderError::search_failed("bagnon", "status 500".to_string()),
        ProviderError::Request {
            operation: Operation::Search,
            subject: "bagnon".to_string(),
            reason: "status 500".to_string(),
        }
    );
}

#[test]
fn duplicates_are_equal() {
    let provider = curse();
    assert_eq!(provider.duplicate(), provider);
    let error = ProviderError::lookup_failed(1, "x".to_string());
    assert_eq!(error.duplicate(), error);
    let error = ProviderError::NoMatchingFile { id: 1, game_version: "1".to_string() };
    assert_eq!(error.duplicate(), error);
}

#[test]
fn the_lookup_identifier_is_the_curse_identifier() {
    let toc = Toc::from_str("##X-Curse-Project-ID: 77\n##X-Wago-ID: w").expect("metadata");
    assert_eq!(curse().lookup_id(&toc), Some(77));
    let toc = Toc::from_str("##X-Wago-ID: w").expect("metadata");
    assert_eq!(curse().lookup_id(&toc), None);
}

#[test]
fn provider_errors_in_words() {
    assert_eq!(
        ProviderError::lookup_failed(3358, "timeout".to_string()).message(),
        "lookup of 3358 failed: timeout"
    );
    assert_eq!(
        ProviderError::search_failed("bagnon", "status 500".to_string()).message(),
        "search for bagnon failed: status 500"
    );
    assert_eq!(
        ProviderError::NoMatchingFile { id: 9, game_version: "10.2.7".to_string() }.message(),
        "add-on 9 has no file for game version 10.2.7"
    );
}
