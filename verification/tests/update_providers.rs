use formation_lap::model::{
    ApplicationUpdateTarget, CatalogUpdateProvider, UpdateChannel, UpdateCheckPlan,
    UpdateCheckTrigger, UpdateStatus,
};
use formation_lap::update_providers::{
    compare_versions, html_headings, is_trusted_information_url, normalize_version,
    parse_github_release, parse_simhub_page, parse_winget_list, UpdateProviderRunner,
    UpdateProviderRuntime, VersionOrder,
};
use std::{cell::RefCell, collections::BTreeMap};

struct FakeRuntime {
    responses: BTreeMap<String, String>,
    requests: RefCell<Vec<String>>,
    versions: BTreeMap<String, String>,
    winget: BTreeMap<String, String>,
}

impl UpdateProviderRuntime for FakeRuntime {
    fn get_https(&self, url: &str, _allowed_hosts: &[&str]) -> Result<String, String> {
        self.requests.borrow_mut().push(url.to_owned());
        self.responses
            .get(url)
            .cloned()
            .ok_or_else(|| "missing fake HTTP response".to_owned())
    }

    fn winget_list(&self, package_id: &str) -> Result<String, String> {
        self.requests
            .borrow_mut()
            .push(format!("winget:{package_id}"));
        self.winget
            .get(package_id)
            .cloned()
            .ok_or_else(|| "missing fake Winget response".to_owned())
    }

    fn file_version(&self, executable_path: &str) -> Option<String> {
        self.versions.get(executable_path).cloned()
    }
}

fn chars(text: &str) -> Vec<char> {
    text.chars().collect()
}

fn text(characters: Option<Vec<char>>) -> Option<String> {
    characters.map(|value| value.into_iter().collect())
}

#[test]
fn github_release_contract_compares_only_unambiguous_versions() {
    let available = parse_github_release(
        Some("1.4.0"),
        r#"{"tag_name":"v1.5.0","html_url":"https://github.com/coasting-nc/LMUFFB/releases/tag/v1.5.0"}"#,
    );
    assert_eq!(
        available.status,
        UpdateStatus::UpdateAvailable {
            current_version: "1.4.0".to_owned(),
            latest_version: "1.5.0".to_owned(),
        }
    );
    assert_eq!(
        available.information_url.as_deref(),
        Some("https://github.com/coasting-nc/LMUFFB/releases/tag/v1.5.0")
    );

    assert!(matches!(
        parse_github_release(
            None,
            r#"{"tag_name":"v1.5.0","html_url":"https://github.com/coasting-nc/LMUFFB/releases/tag/v1.5.0"}"#,
        )
        .status,
        UpdateStatus::Unknown { .. }
    ));
}

#[test]
fn winget_contract_uses_exact_installed_and_available_columns() {
    let advice = parse_winget_list(
        "Name             Id                      Version Available Source\n\
         -----------------------------------------------------------------\n\
         Trading Paints   Rhinode.TradingPaints  2.0.36  2.0.37    winget\n",
        "Rhinode.TradingPaints",
    );
    assert_eq!(
        advice.status,
        UpdateStatus::UpdateAvailable {
            current_version: "2.0.36".to_owned(),
            latest_version: "2.0.37".to_owned(),
        }
    );

    assert!(matches!(
        parse_winget_list(
            "Nom Version Disponible Source\nTrading Paints 2.0.36 2.0.37 winget\n",
            "Rhinode.TradingPaints",
        )
        .status,
        UpdateStatus::Unknown { .. }
    ));
}

#[test]
fn simhub_contract_requires_matching_download_and_changelog_versions() {
    let current = parse_simhub_page(
        Some("9.5.0"),
        "<h1>Download SimHub v9.6.1</h1><h2>9.6.1</h2><p>Latest changes</p>",
        "https://www.simhubdash.com/download-2/",
    );
    assert_eq!(
        current.status,
        UpdateStatus::UpdateAvailable {
            current_version: "9.5.0".to_owned(),
            latest_version: "9.6.1".to_owned(),
        }
    );

    assert!(matches!(
        parse_simhub_page(
            Some("9.5.0"),
            "<h1>Download SimHub v9.6.1</h1><h2>9.6.0</h2>",
            "https://www.simhubdash.com/download-2/",
        )
        .status,
        UpdateStatus::Unknown { .. }
    ));
}

#[test]
fn provider_runner_queries_only_curated_origins_and_returns_unknown_fail_closed() {
    let github_url = "https://api.github.com/repos/coasting-nc/LMUFFB/releases/latest";
    let simhub_url = "https://www.simhubdash.com/download-2/";
    let runtime = FakeRuntime {
        responses: BTreeMap::from([
            (
                github_url.to_owned(),
                r#"{"tag_name":"v1.5.0","html_url":"https://github.com/coasting-nc/LMUFFB/releases/tag/v1.5.0"}"#.to_owned(),
            ),
            (
                simhub_url.to_owned(),
                "<h1>Download SimHub v9.6.1</h1><h2>9.6.1</h2>".to_owned(),
            ),
        ]),
        requests: RefCell::new(Vec::new()),
        versions: BTreeMap::from([
            ("C:\\Apps\\LMUFFB.exe".to_owned(), "1.4.0".to_owned()),
            ("C:\\Apps\\SimHub.exe".to_owned(), "9.5.0".to_owned()),
        ]),
        winget: BTreeMap::from([(
            "Rhinode.TradingPaints".to_owned(),
            "Name Id Version Source\nTrading Paints Rhinode.TradingPaints 2.0.37 winget\n"
                .to_owned(),
        )]),
    };
    let plan = UpdateCheckPlan {
        request_id: "request".to_owned(),
        channel: UpdateChannel::Stable,
        trigger: UpdateCheckTrigger::Manual,
        applications: vec![
            ApplicationUpdateTarget {
                application_id: "lmuffb-profile-id".to_owned(),
                name: "LMUFFB".to_owned(),
                executable_path: Some("C:\\Apps\\LMUFFB.exe".to_owned()),
                provider: Some(CatalogUpdateProvider::GitHubReleases {
                    repository: "coasting-nc/LMUFFB".to_owned(),
                }),
            },
            ApplicationUpdateTarget {
                application_id: "trading-paints-profile-id".to_owned(),
                name: "Trading Paints".to_owned(),
                executable_path: None,
                provider: Some(CatalogUpdateProvider::Winget {
                    package_id: "Rhinode.TradingPaints".to_owned(),
                }),
            },
            ApplicationUpdateTarget {
                application_id: "simhub-profile-id".to_owned(),
                name: "SimHub".to_owned(),
                executable_path: Some("C:\\Apps\\SimHub.exe".to_owned()),
                provider: Some(CatalogUpdateProvider::OfficialPage {
                    url: simhub_url.to_owned(),
                }),
            },
            ApplicationUpdateTarget {
                application_id: "custom-profile-id".to_owned(),
                name: "Custom tool".to_owned(),
                executable_path: None,
                provider: None,
            },
        ],
    };

    let advice = UpdateProviderRunner::new(runtime).check(&plan);

    assert_eq!(
        advice
            .iter()
            .map(|application| application.status.clone())
            .collect::<Vec<_>>(),
        vec![
            UpdateStatus::UpdateAvailable {
                current_version: "1.4.0".to_owned(),
                latest_version: "1.5.0".to_owned(),
            },
            UpdateStatus::Current {
                current_version: "2.0.37".to_owned(),
            },
            UpdateStatus::UpdateAvailable {
                current_version: "9.5.0".to_owned(),
                latest_version: "9.6.1".to_owned(),
            },
            UpdateStatus::Unknown {
                reason: "No trusted update provider is configured.".to_owned(),
            },
        ]
    );
    assert_eq!(
        advice
            .iter()
            .map(|application| application.application_id.as_str())
            .collect::<Vec<_>>(),
        vec![
            "lmuffb-profile-id",
            "trading-paints-profile-id",
            "simhub-profile-id",
            "custom-profile-id",
        ]
    );
}

#[test]
fn runner_requests_only_the_curated_urls_and_fails_closed_without_answers() {
    let runtime = FakeRuntime {
        responses: BTreeMap::new(),
        requests: RefCell::new(Vec::new()),
        versions: BTreeMap::new(),
        winget: BTreeMap::new(),
    };
    let plan = UpdateCheckPlan {
        request_id: "request".to_owned(),
        channel: UpdateChannel::Stable,
        trigger: UpdateCheckTrigger::Manual,
        applications: vec![
            ApplicationUpdateTarget {
                application_id: "a".to_owned(),
                name: "A".to_owned(),
                executable_path: None,
                provider: Some(CatalogUpdateProvider::GitHubReleases {
                    repository: "owner/repo".to_owned(),
                }),
            },
            ApplicationUpdateTarget {
                application_id: "b".to_owned(),
                name: "B".to_owned(),
                executable_path: None,
                provider: Some(CatalogUpdateProvider::Winget { package_id: "X.Y".to_owned() }),
            },
        ],
    };
    let runner = UpdateProviderRunner::new(runtime);
    let advice = runner.check(&plan);
    assert_eq!(
        advice[0].status,
        UpdateStatus::Unknown {
            reason: "The trusted GitHub release provider could not be reached.".to_owned()
        }
    );
    assert_eq!(
        advice[1].status,
        UpdateStatus::Unknown {
            reason: "Winget could not return reliable update information.".to_owned()
        }
    );
}

#[test]
fn versions_need_two_numeric_pieces_and_a_nonzero_one() {
    assert_eq!(text(normalize_version(&chars(" v1.2.3 "))), Some("1.2.3".to_owned()));
    assert_eq!(text(normalize_version(&chars("1.0"))), Some("1.0".to_owned()));
    assert_eq!(normalize_version(&chars("7")), None);
    assert_eq!(normalize_version(&chars("0.0.0")), None);
    assert_eq!(normalize_version(&chars("1.2-beta")), None);
    assert_eq!(normalize_version(&chars("1..2")), None);
}

#[test]
fn versions_compare_piece_by_piece_with_zero_padding() {
    assert_eq!(compare_versions(&chars("1.4.0"), &chars("1.5")), Some(VersionOrder::Older));
    assert_eq!(compare_versions(&chars("2.0"), &chars("2.0.0")), Some(VersionOrder::Same));
    assert_eq!(compare_versions(&chars("10.0"), &chars("9.9")), Some(VersionOrder::Newer));
    assert_eq!(compare_versions(&chars("a.0"), &chars("1.0")), None);
}

#[test]
fn headings_collapse_inner_markup_and_whitespace() {
    let headings = html_headings(&chars(
        "<H1 class=\"x\">Download <b>SimHub</b>\n v9.6.1</H1><hr><h7>no</h7><h2> 9.6.1 </h2>",
    ));
    let headings: Vec<String> = headings.into_iter().map(|h| h.into_iter().collect()).collect();
    assert_eq!(headings, vec!["Download SimHub v9.6.1".to_owned(), "9.6.1".to_owned()]);
}

#[test]
fn information_links_must_be_https_without_credentials_on_allowed_hosts() {
    assert!(is_trusted_information_url("https://GitHub.com/a/b", &["github.com"]));
    assert!(!is_trusted_information_url("http://github.com/a/b", &["github.com"]));
    assert!(!is_trusted_information_url("https://user@github.com/a", &["github.com"]));
    assert!(!is_trusted_information_url("https://evil.example/a", &["github.com"]));
    assert!(!is_trusted_information_url("not a url", &["github.com"]));
}

#[test]
fn winget_without_available_column_reports_current_and_needs_one_row() {
    let current = parse_winget_list(
        "Name Id Version Source\nTool Pkg.Id 1.2 winget\n",
        "Pkg.Id",
    );
    assert_eq!(current.status, UpdateStatus::Current { current_version: "1.2".to_owned() });
    let twice = parse_winget_list(
        "Name Id Version Source\nTool Pkg.Id 1.2 winget\nTool Pkg.Id 1.3 winget\n",
        "Pkg.Id",
    );
    assert_eq!(
        twice.status,
        UpdateStatus::Unknown { reason: "Winget did not return one exact package match.".to_owned() }
    );
}
