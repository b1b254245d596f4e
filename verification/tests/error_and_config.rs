use racer_tracer::config::{
    default_preview, select_loader, Args, Config, ImageActionConfig, RenderConfig, RendererConfig,
    SceneLoaderConfig, ScreenConfig,
};
use racer_tracer::error::{decimal, exit_status, TracerError};

fn s(text: &str) -> String {
    String::from(text)
}

#[test]
fn exit_codes_are_stable_and_distinct() {
    let all = vec![
        (TracerError::FailedToCreateWindow(s("a")), 1),
        (TracerError::FailedToUpdateWindow(s("a")), 2),
        (TracerError::Configuration(s("a"), s("b")), 3),
        (TracerError::UnknownMaterial(s("a")), 4),
        (TracerError::FailedToAcquireLock(s("a")), 5),
        (TracerError::ExitEvent, 6),
        (TracerError::CancelEvent, 7),
        (TracerError::ImageSave(s("a")), 8),
        (TracerError::SceneLoad(s("a")), 9),
        (TracerError::ArgumentParsingError(s("a")), 10),
        (TracerError::KeyError(s("a")), 11),
        (TracerError::CreateLogError(s("a")), 12),
        (TracerError::RecieveError(s("a")), 13),
        (TracerError::SendError(s("a")), 14),
        (TracerError::ActionProtocolError(s("a")), 15),
        (TracerError::BusWriteError(s("a"), s("b")), 16),
        (TracerError::BusReadError(s("a"), s("b")), 17),
        (TracerError::BusUpdateError(s("a")), 18),
        (TracerError::BusTimeoutError(), 19),
        (TracerError::NoObjectWithId(3), 20),
        (TracerError::FailedToOpenImage(s("a"), s("b")), 21),
        (TracerError::FailedToParse(s("a"), s("b")), 22),
    ];
    for (error, code) in all {
        assert_eq!(error.exit_code(), code);
        assert_eq!(i32::from(error), code);
    }
}

#[test]
fn a_run_leaves_with_zero_when_it_ended_well_or_was_asked_to_exit() {
    assert_eq!(exit_status(&Ok(())), 0);
    assert_eq!(exit_status(&Err(TracerError::ExitEvent)), 0);
    assert_eq!(exit_status(&Err(TracerError::CancelEvent)), 7);
    assert_eq!(exit_status(&Err(TracerError::SceneLoad(s("x")))), 9);
    assert_eq!(exit_status(&Err(TracerError::FailedToParse(s("x"), s("y")))), 22);
}

#[test]
fn expected_outcomes_are_exit_and_cancel() {
    assert!(TracerError::ExitEvent.is_expected());
    assert!(TracerError::CancelEvent.is_expected());
    assert!(!TracerError::BusTimeoutError().is_expected());
    assert!(!TracerError::SceneLoad(s("x")).is_expected());
}

#[test]
fn messages_read_as_written() {
    assert_eq!(
        TracerError::FailedToCreateWindow(s("no display")).message(),
        "Failed to create window: no display"
    );
    assert_eq!(
        TracerError::FailedToUpdateWindow(s("gone")).message(),
        "Failed to update window: gone"
    );
    assert_eq!(
        TracerError::Configuration(s("./config.yml"), s("missing")).message(),
        "Config Error (./config.yml): missing"
    );
    assert_eq!(
        TracerError::ArgumentParsingError(s("bad")).message(),
        "Argument parsing Error: bad"
    );
    assert_eq!(TracerError::UnknownMaterial(s("gold")).message(), "Unknown Material gold.");
    assert_eq!(
        TracerError::FailedToAcquireLock(s("camera")).message(),
        "Failed to acquire lock \"camera\""
    );
    assert_eq!(TracerError::ExitEvent.message(), "Exit event");
    assert_eq!(TracerError::CancelEvent.message(), "Cancel event");
    assert_eq!(TracerError::ImageSave(s("disk full")).message(), "Image save error: disk full");
    assert_eq!(TracerError::SceneLoad(s("x")).message(), "Scene failed to load: x");
    assert_eq!(TracerError::KeyError(s("x")).message(), "Key callback failed: x");
    assert_eq!(TracerError::CreateLogError(s("x")).message(), "Failed to create log: x");
    assert_eq!(TracerError::RecieveError(s("x")).message(), "Failed to recieve data: x");
    assert_eq!(TracerError::SendError(s("x")).message(), "Failed to recieve data: x");
    assert_eq!(
        TracerError::ActionProtocolError(s("x")).message(),
        "Action protocol error! Unsupported action for: x"
    );
    assert_eq!(
        TracerError::BusWriteError(s("keys"), s("closed")).message(),
        "Failed to write data to bus \"keys\": closed"
    );
    assert_eq!(
        TracerError::BusReadError(s("keys"), s("closed")).message(),
        "Failed to read data from bus \"keys\": closed"
    );
    assert_eq!(
        TracerError::BusUpdateError(s("keys")).message(),
        "Failed to update databus \"keys\""
    );
    assert_eq!(TracerError::BusTimeoutError().message(), "Bus timeout error.");
    assert_eq!(TracerError::NoObjectWithId(42).message(), "No object with id: 42.");
    assert_eq!(
        TracerError::FailedToOpenImage(s("a.png"), s("not found")).message(),
        "Failed to open image a.png: not found"
    );
    assert_eq!(
        TracerError::FailedToParse(s("1 2"), s("too short")).message(),
        "Failed to parse \"1 2\" into a vector: too short"
    );
}

#[test]
fn decimal_writes_numerals() {
    assert_eq!(decimal(0), "0");
    assert_eq!(decimal(7), "7");
    assert_eq!(decimal(10), "10");
    assert_eq!(decimal(1024), "1024");
    assert_eq!(decimal(907), "907");
    assert_eq!(decimal(usize::MAX), format!("{}", usize::MAX));
}

#[test]
fn image_action_words() {
    assert_eq!(ImageActionConfig::parse("png"), ImageActionConfig::SavePng);
    assert_eq!(ImageActionConfig::parse("none"), ImageActionConfig::NoAction);
    assert_eq!(ImageActionConfig::parse("PNG"), ImageActionConfig::NoAction);
    assert_eq!(ImageActionConfig::parse(""), ImageActionConfig::NoAction);
    assert_eq!("png".parse::<ImageActionConfig>(), Ok(ImageActionConfig::SavePng));
    assert_eq!("jpeg".parse::<ImageActionConfig>(), Ok(ImageActionConfig::NoAction));
}

#[test]
fn defaults() {
    let config = Config::default();
    assert_eq!(config.screen, ScreenConfig { height: 0, width: 0 });
    assert_eq!(config.render, RenderConfig::default());
    assert_eq!(config.render.samples, 0);
    assert_eq!(config.loader, SceneLoaderConfig::NoScene);
    assert_eq!(config.image_action, ImageActionConfig::NoAction);
    assert_eq!(config.image_output_dir, None);
    assert_eq!(config.renderer, RendererConfig::Cpu);
    assert_eq!(config.preview_renderer, RendererConfig::Cpu);
    assert_eq!(default_preview(), RendererConfig::CpuPreview);
}

#[test]
fn reserved_scene_names_select_builtin_scenes() {
    assert_eq!(select_loader(s("random"), None), Ok(SceneLoaderConfig::Random));
    assert_eq!(select_loader(s("sandbox"), None), Ok(SceneLoaderConfig::Sandbox));
    assert_eq!(select_loader(s("random"), Some(s("yml"))), Ok(SceneLoaderConfig::Random));
}

#[test]
fn scene_files_are_selected_by_extension() {
    assert_eq!(
        select_loader(s("scenes/box.yml"), Some(s("yml"))),
        Ok(SceneLoaderConfig::Yml { path: s("scenes/box.yml") })
    );
    assert_eq!(
        select_loader(s("scenes/box.json"), Some(s("json"))),
        Err(TracerError::ArgumentParsingError(s(
            "Could not find a suitable scene loader for file: scenes/box.json"
        )))
    );
    assert_eq!(
        select_loader(s("scenes/box"), None),
        Err(TracerError::ArgumentParsingError(s(
            "Could not get extension from scene file: scenes/box"
        )))
    );
}

fn args(scene: Option<&str>, image_action: Option<ImageActionConfig>) -> Args {
    Args { config: s("./config.yml"), scene: scene.map(String::from), image_action }
}

#[test]
fn command_line_overrides_the_file() {
    let mut file = Config::default();
    file.render.samples = 8;
    file.image_output_dir = Some(s("out"));

    let kept = file.clone().with_args(args(None, None)).unwrap();
    assert_eq!(kept, file);

    let overridden = file
        .clone()
        .with_args(args(Some("scene.yml"), Some(ImageActionConfig::SavePng)))
        .unwrap();
    assert_eq!(overridden.loader, SceneLoaderConfig::Yml { path: s("scene.yml") });
    assert_eq!(overridden.image_action, ImageActionConfig::SavePng);
    assert_eq!(overridden.render.samples, 8);
    assert_eq!(overridden.image_output_dir, Some(s("out")));

    let random = file.clone().with_args(args(Some("random"), None)).unwrap();
    assert_eq!(random.loader, SceneLoaderConfig::Random);
    let sandbox = file.clone().with_args(args(Some("sandbox"), None)).unwrap();
    assert_eq!(sandbox.loader, SceneLoaderConfig::Sandbox);
}

#[test]
fn scene_arguments_without_a_loader_are_refused() {
    let file = Config::default();
    assert_eq!(
        file.clone().with_args(args(Some("scene.toml"), None)),
        Err(TracerError::ArgumentParsingError(s(
            "Could not find a suitable scene loader for file: scene.toml"
        )))
    );
    assert_eq!(
        file.clone().with_args(args(Some("scene"), None)),
        Err(TracerError::ArgumentParsingError(s(
            "Could not get extension from scene file: scene"
        )))
    );
    // A leading dot begins a hidden file's name, not an extension.
    assert_eq!(
        file.with_args(args(Some(".yml"), None)),
        Err(TracerError::ArgumentParsingError(s(
            "Could not get extension from scene file: .yml"
        )))
    );
}
