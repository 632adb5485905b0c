use formation_lap::launch_recipe::{percent_encode, sanitized_target, steam_launch_uri, GameLaunchTarget};
use formation_lap::model::{LaunchRecipe, LaunchSource, SteamLaunchSelector};

#[test]
fn steam_uris_select_an_explicit_mode_or_structured_arguments() {
    let mut recipe = LaunchRecipe {
        source: LaunchSource::Steam {
            app_id: 42,
            selector: Some(SteamLaunchSelector::Default),
        },
        ..LaunchRecipe::default()
    };
    assert_eq!(
        steam_launch_uri(&recipe).expect("default selector should render"),
        "steam://launch/42/option0"
    );

    for (selector, expected) in [
        (SteamLaunchSelector::OpenVr, "steam://launch/42/VR"),
        (SteamLaunchSelector::Oculus, "steam://launch/42/OTHERVR"),
        (
            SteamLaunchSelector::Numbered { index: 3 },
            "steam://launch/42/option3",
        ),
    ] {
        recipe.source = LaunchSource::Steam {
            app_id: 42,
            selector: Some(selector),
        };
        assert_eq!(
            steam_launch_uri(&recipe).expect("explicit selector should render"),
            expected
        );
    }

    recipe.source = LaunchSource::Steam {
        app_id: 42,
        selector: Some(SteamLaunchSelector::Default),
    };
    recipe.arguments = vec!["-novr".to_owned(), "value with spaces".to_owned()];
    assert_eq!(
        steam_launch_uri(&recipe).expect("structured arguments should render"),
        "steam://run/42//-novr%20value%20with%20spaces/"
    );
}

#[test]
fn steam_arguments_require_the_default_selector() {
    let recipe = LaunchRecipe {
        source: LaunchSource::Steam { app_id: 7, selector: Some(SteamLaunchSelector::OpenVr) },
        arguments: vec!["-vr".to_owned()],
        ..LaunchRecipe::default()
    };
    assert_eq!(
        steam_launch_uri(&recipe),
        Err("Steam launch arguments require the explicit default selector".to_owned())
    );
}

#[test]
fn steam_launches_need_a_selector_and_a_steam_source() {
    let missing = LaunchRecipe {
        source: LaunchSource::Steam { app_id: 7, selector: None },
        ..LaunchRecipe::default()
    };
    assert_eq!(steam_launch_uri(&missing), Err("Steam launch selector is missing".to_owned()));
    assert_eq!(
        steam_launch_uri(&LaunchRecipe::default()),
        Err("launch source is not Steam".to_owned())
    );
}

#[test]
fn steam_arguments_over_the_limit_are_refused() {
    let recipe = LaunchRecipe {
        source: LaunchSource::Steam { app_id: 7, selector: Some(SteamLaunchSelector::Default) },
        arguments: vec!["a".repeat(4096), "b".to_owned()],
        ..LaunchRecipe::default()
    };
    assert_eq!(
        steam_launch_uri(&recipe),
        Err("Steam launch arguments exceed the safe limit".to_owned())
    );
    let at_limit = LaunchRecipe { arguments: vec!["a".repeat(4096)], ..recipe };
    assert!(steam_launch_uri(&at_limit).is_ok());
}

#[test]
fn percent_encoding_keeps_only_unreserved_bytes() {
    let encoded: String = percent_encode("a-b.c_d~e f/é").into_iter().collect();
    assert_eq!(encoded, "a-b.c_d~e%20f%2F%C3%A9");
}

#[test]
fn direct_targets_record_only_the_file_name() {
    let recipe = LaunchRecipe {
        source: LaunchSource::DirectExecutable {
            executable_path: r"C:\Games\Private Folder\sim.exe".to_owned(),
        },
        ..LaunchRecipe::default()
    };
    match sanitized_target(&recipe) {
        Ok(GameLaunchTarget::DirectExecutable { executable_name }) => {
            assert_eq!(executable_name, "sim.exe")
        }
        other => panic!("unexpected target {other:?}"),
    }
    let blank = LaunchRecipe::default();
    assert!(matches!(
        sanitized_target(&blank),
        Err(message) if message == "direct executable does not have a valid file name"
    ));
}
