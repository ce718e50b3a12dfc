use std::io::Write;
use undetected_chromedriver::archive::Step;
use undetected_chromedriver::launcher::launch_on;
use undetected_chromedriver::patcher::find_markers;
use undetected_chromedriver::pipeline::{advance, start, Action, Event, Stage};
use undetected_chromedriver::platform::Command;
use undetected_chromedriver::{ChromeVersion, Error, Milestone, MilestoneVersions, OS};

const MILESTONES: &str =
    "https://googlechromelabs.github.io/chrome-for-testing/latest-versions-per-milestone.json";

fn driver_archive(name: &str, contents: &[u8]) -> Vec<u8> {
    let mut writer = zip::ZipWriter::new(std::io::Cursor::new(Vec::new()));
    let options =
        zip::write::FileOptions::default().compression_method(zip::CompressionMethod::Stored);
    writer.start_file(name, options).unwrap();
    writer.write_all(contents).unwrap();
    writer.finish().unwrap().into_inner()
}

fn milestones() -> MilestoneVersions {
    let mut c = MilestoneVersions::new("2024-03-05".to_string());
    c.insert(
        "122".to_string(),
        Milestone {
            milestone: "122".to_string(),
            version: "122.0.6261.128".to_string(),
            revision: "1250580".to_string(),
        },
    );
    c
}

fn version(text: &str) -> ChromeVersion {
    ChromeVersion::parse(text).unwrap()
}

fn check(path: &str) -> Action {
    Action::CheckPresence(path.to_string())
}

fn failed() -> Event {
    Event::Failed("it broke".to_string())
}

fn expect_spawn(os: OS, step: Option<(Stage, Action)>) {
    match step {
        Some((Stage::Spawning, Action::Spawn(launch))) => {
            assert!((2000..5000).contains(&launch.port));
            assert_eq!(launch, launch_on(os, launch.port));
        }
        other => panic!("no spawn: {:?}", other),
    }
}

#[test]
fn cold_start_on_linux_runs_every_step_in_order() {
    let os = OS::Linux;
    assert_eq!(start(), Stage::Start);
    assert_eq!(advance(Stage::Start, Event::Begin), Some((Stage::Host, Action::ProbeHost)));
    assert_eq!(
        advance(Stage::Host, Event::Host("linux".to_string())),
        Some((Stage::DriverPresence { os }, check("chromedriver")))
    );
    assert_eq!(
        advance(Stage::DriverPresence { os }, Event::Present(false)),
        Some((
            Stage::VersionOutput { os },
            Action::RunCommand(Command {
                program: "google-chrome-stable",
                arguments: vec!["--version"],
            })
        ))
    );
    assert_eq!(
        advance(
            Stage::VersionOutput { os },
            Event::Output("Google Chrome 122.0.6261.111\n".to_string())
        ),
        Some((
            Stage::CatalogueReply { os, version: version("122") },
            Action::FetchMilestones(MILESTONES.to_string())
        ))
    );
    assert_eq!(
        advance(
            Stage::CatalogueReply { os, version: version("122") },
            Event::Milestones(milestones())
        ),
        Some((
            Stage::ArchiveBody { os },
            Action::Download(
                "https://storage.googleapis.com/chrome-for-testing-public/122.0.6261.128/linux64/chromedriver-linux64.zip"
                    .to_string()
            )
        ))
    );
    assert_eq!(
        advance(
            Stage::ArchiveBody { os },
            Event::Body(driver_archive("chromedriver-linux64/chromedriver", b"driver cdc_ image"))
        ),
        Some((
            Stage::Extraction { os, complete: true },
            Action::Extract(vec![Step::WriteFile {
                name: "chromedriver".to_string(),
                contents: b"driver cdc_ image".to_vec(),
            }])
        ))
    );
    assert_eq!(
        advance(Stage::Extraction { os, complete: true }, Event::Completed),
        Some((Stage::PatchedPresence { os }, check("chromedriver_PATCHED")))
    );
    assert_eq!(
        advance(Stage::PatchedPresence { os }, Event::Present(false)),
        Some((Stage::DriverImage { os }, Action::ReadFile("chromedriver".to_string())))
    );
    let mut image = b"head cdc_".to_vec();
    image.extend_from_slice(&[0u8; 18]);
    image.extend_from_slice(b" tail");
    match advance(Stage::DriverImage { os }, Event::Image(image.clone())) {
        Some((Stage::PatchedWritten { os: OS::Linux }, Action::WriteFile { path, contents })) => {
            assert_eq!(path, "chromedriver_PATCHED");
            assert_eq!(contents.len(), image.len());
            assert_eq!(&contents[..9], b"head cdc_");
            assert!(contents[9..27].iter().all(|c| c.is_ascii_alphabetic()));
            assert_eq!(&contents[27..], b" tail");
        }
        other => panic!("no write: {:?}", other),
    }
    assert_eq!(
        advance(Stage::PatchedWritten { os }, Event::Completed),
        Some((
            Stage::ModeSet { os },
            Action::SetMode { path: "chromedriver_PATCHED".to_string(), mode: 0o755 }
        ))
    );
    expect_spawn(os, advance(Stage::ModeSet { os }, Event::Completed));
    assert_eq!(advance(Stage::Spawning, Event::Completed), Some((Stage::Done, Action::Finish)));
}

#[test]
fn warm_start_goes_straight_to_the_spawn() {
    let os = OS::Linux;
    let mut stage = start();
    let mut actions = Vec::new();
    for event in [
        Event::Begin,
        Event::Host("linux".to_string()),
        Event::Present(true),
        Event::Present(true),
        Event::Completed,
    ] {
        let (next, action) = advance(stage, event).unwrap();
        stage = next;
        actions.push(action);
    }
    assert_eq!(stage, Stage::Spawning);
    assert_eq!(actions.len(), 5);
    assert_eq!(actions[0], Action::ProbeHost);
    assert_eq!(actions[1], check("chromedriver"));
    assert_eq!(actions[2], check("chromedriver_PATCHED"));
    assert_eq!(
        actions[3],
        Action::SetMode { path: "chromedriver_PATCHED".to_string(), mode: 0o755 }
    );
    assert!(matches!(actions[4], Action::Spawn(_)));
    expect_spawn(os, Some((stage, actions[4].clone())));
}

#[test]
fn warm_start_on_windows_sets_no_mode() {
    let os = OS::Windows;
    assert_eq!(
        advance(Stage::Host, Event::Host("windows".to_string())),
        Some((Stage::DriverPresence { os }, check("chromedriver.exe")))
    );
    assert_eq!(
        advance(Stage::DriverPresence { os }, Event::Present(true)),
        Some((Stage::PatchedPresence { os }, check("chromedriver_PATCHED.exe")))
    );
    expect_spawn(os, advance(Stage::PatchedPresence { os }, Event::Present(true)));
    expect_spawn(os, advance(Stage::PatchedWritten { os }, Event::Completed));
}

#[test]
fn legacy_chrome_is_asked_of_the_legacy_endpoint() {
    let os = OS::Linux;
    assert_eq!(
        advance(Stage::VersionOutput { os }, Event::Output("Google Chrome 100.0.4896.60".to_string())),
        Some((
            Stage::CatalogueReply { os, version: version("100") },
            Action::FetchRelease(
                "https://chromedriver.storage.googleapis.com/LATEST_RELEASE_100".to_string()
            )
        ))
    );
    assert_eq!(
        advance(
            Stage::CatalogueReply { os, version: version("100") },
            Event::Release("100.0.4896.60".to_string())
        ),
        Some((
            Stage::ArchiveBody { os },
            Action::Download(
                "https://chromedriver.storage.googleapis.com/100.0.4896.60/chromedriver_linux64.zip"
                    .to_string()
            )
        ))
    );
}

#[test]
fn unknown_host_ends_the_sequence_by_name() {
    assert_eq!(
        advance(Stage::Host, Event::Host("freebsd".to_string())),
        Some((Stage::Done, Action::Fail(Error::UnsupportedOS("freebsd".to_string()))))
    );
    assert_eq!(advance(Stage::Done, Event::Begin), None);
    assert_eq!(advance(Stage::Done, Event::Completed), None);
    assert_eq!(advance(Stage::Done, failed()), None);
}

#[test]
fn marker_free_driver_is_written_as_it_is() {
    let os = OS::MacOS;
    let image: Vec<u8> = (0..3000u32).map(|i| (i % 200) as u8).collect();
    assert!(find_markers(&image).is_empty());
    assert_eq!(
        advance(Stage::DriverImage { os }, Event::Image(image.clone())),
        Some((
            Stage::PatchedWritten { os },
            Action::WriteFile { path: "chromedriver_PATCHED".to_string(), contents: image }
        ))
    );
}

#[test]
fn macos_and_windows_run_their_own_version_commands() {
    assert_eq!(
        advance(Stage::DriverPresence { os: OS::MacOS }, Event::Present(false)),
        Some((
            Stage::VersionOutput { os: OS::MacOS },
            Action::RunCommand(OS::MacOS.version_command())
        ))
    );
    assert_eq!(
        advance(Stage::DriverPresence { os: OS::Windows }, Event::Present(false)),
        Some((
            Stage::VersionOutput { os: OS::Windows },
            Action::RunCommand(OS::Windows.version_command())
        ))
    );
}

#[test]
fn unreadable_version_ends_the_sequence() {
    let os = OS::Linux;
    let end = Some((Stage::Done, Action::Fail(Error::VersionProbeFailed)));
    assert_eq!(advance(Stage::VersionOutput { os }, Event::Output("no digits".to_string())), end);
    assert_eq!(advance(Stage::VersionOutput { os }, Event::Output("12".to_string())), end);
    assert_eq!(advance(Stage::VersionOutput { os }, failed()), end);
}

#[test]
fn missing_milestone_ends_the_sequence_by_version() {
    let os = OS::Linux;
    assert_eq!(
        advance(
            Stage::CatalogueReply { os, version: version("123") },
            Event::Milestones(milestones())
        ),
        Some((Stage::Done, Action::Fail(Error::MilestoneNotFound("123".to_string()))))
    );
}

#[test]
fn catalogue_failure_keeps_its_detail() {
    let os = OS::Linux;
    for text in ["100", "122"] {
        assert_eq!(
            advance(
                Stage::CatalogueReply { os, version: version(text) },
                Event::Failed("status 503".to_string())
            ),
            Some((Stage::Done, Action::Fail(Error::CatalogueFailed("status 503".to_string()))))
        );
    }
}

#[test]
fn reply_of_the_other_catalogue_is_not_accepted() {
    let os = OS::Linux;
    assert_eq!(
        advance(
            Stage::CatalogueReply { os, version: version("100") },
            Event::Milestones(milestones())
        ),
        None
    );
    assert_eq!(
        advance(
            Stage::CatalogueReply { os, version: version("122") },
            Event::Release("122.0.1.2".to_string())
        ),
        None
    );
}

#[test]
fn failures_are_named_by_the_step_that_failed() {
    let os = OS::Linux;
    let end = |error: Error| Some((Stage::Done, Action::Fail(error)));
    assert_eq!(advance(Stage::DriverPresence { os }, failed()), end(Error::PatchFailed));
    assert_eq!(advance(Stage::ArchiveBody { os }, failed()), end(Error::DownloadFailed));
    assert_eq!(
        advance(Stage::Extraction { os, complete: true }, failed()),
        end(Error::ExtractionFailed)
    );
    assert_eq!(advance(Stage::PatchedPresence { os }, failed()), end(Error::PatchFailed));
    assert_eq!(advance(Stage::DriverImage { os }, failed()), end(Error::PatchFailed));
    assert_eq!(advance(Stage::PatchedWritten { os }, failed()), end(Error::PatchFailed));
    assert_eq!(advance(Stage::ModeSet { os }, failed()), end(Error::PatchFailed));
    assert_eq!(advance(Stage::Spawning, failed()), end(Error::SpawnFailed));
}

#[test]
fn download_that_is_no_archive_fails_the_extraction() {
    let os = OS::Linux;
    assert_eq!(
        advance(Stage::ArchiveBody { os }, Event::Body(b"not a zip".to_vec())),
        Some((Stage::Extraction { os, complete: false }, Action::Extract(Vec::new())))
    );
    assert_eq!(
        advance(Stage::Extraction { os, complete: false }, Event::Completed),
        Some((Stage::Done, Action::Fail(Error::ExtractionFailed)))
    );
}

#[test]
fn events_out_of_turn_are_not_accepted() {
    let os = OS::Linux;
    assert_eq!(advance(Stage::Start, Event::Completed), None);
    assert_eq!(advance(Stage::Start, Event::Host("linux".to_string())), None);
    assert_eq!(advance(Stage::Start, failed()), None);
    assert_eq!(advance(Stage::Host, Event::Begin), None);
    assert_eq!(advance(Stage::Host, failed()), None);
    assert_eq!(advance(Stage::DriverPresence { os }, Event::Completed), None);
    assert_eq!(advance(Stage::VersionOutput { os }, Event::Present(true)), None);
    assert_eq!(advance(Stage::ArchiveBody { os }, Event::Image(Vec::new())), None);
    assert_eq!(advance(Stage::DriverImage { os }, Event::Body(Vec::new())), None);
    assert_eq!(advance(Stage::Extraction { os, complete: true }, Event::Present(true)), None);
    assert_eq!(advance(Stage::PatchedWritten { os }, Event::Begin), None);
    assert_eq!(advance(Stage::ModeSet { os }, Event::Present(true)), None);
    assert_eq!(advance(Stage::Spawning, Event::Begin), None);
}
