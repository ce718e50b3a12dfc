use undetected_chromedriver::capabilities::{adjustments, Adjustment};
use undetected_chromedriver::launcher::{launch_on, pick_port, plan_launch, Launch, PORT_END, PORT_FIRST};
use undetected_chromedriver::readiness::{status_url, Probe, Verdict, BACKOFF_MILLIS, MAX_ATTEMPTS};
use undetected_chromedriver::text::{decimal_string, ends_with_char, same_text};
use undetected_chromedriver::{Error, OS};

#[test]
fn launch_names_program_argument_and_address() {
    assert_eq!(
        launch_on(OS::Linux, 2345),
        Launch {
            program: "./chromedriver_PATCHED".to_string(),
            argument: "--port=2345".to_string(),
            url: "http://localhost:2345".to_string(),
            port: 2345,
        }
    );
    assert_eq!(launch_on(OS::MacOS, 4999).program, "./chromedriver_PATCHED");
    assert_eq!(
        launch_on(OS::Windows, 2000),
        Launch {
            program: "./chromedriver_PATCHED.exe".to_string(),
            argument: "--port=2000".to_string(),
            url: "http://localhost:2000".to_string(),
            port: 2000,
        }
    );
}

#[test]
fn ports_are_picked_from_the_range() {
    assert_eq!(PORT_FIRST, 2000);
    assert_eq!(PORT_END, 5000);
    for _ in 0..2000 {
        let port = pick_port();
        assert!((2000..5000).contains(&port));
    }
}

#[test]
fn ports_vary_from_launch_to_launch() {
    let first = pick_port();
    assert!((0..200).any(|_| pick_port() != first));
}

#[test]
fn planned_launch_is_that_of_its_port() {
    for os in [OS::Linux, OS::MacOS, OS::Windows] {
        let launch = plan_launch(os);
        assert!((2000..5000).contains(&launch.port));
        assert_eq!(launch, launch_on(os, launch.port));
        assert_eq!(launch.url, format!("http://localhost:{}", launch.port));
        assert_eq!(launch.argument, format!("--port={}", launch.port));
    }
}

#[test]
fn numbers_are_written_in_decimal() {
    assert_eq!(decimal_string(0), "0");
    assert_eq!(decimal_string(7), "7");
    assert_eq!(decimal_string(10), "10");
    assert_eq!(decimal_string(2000), "2000");
    assert_eq!(decimal_string(4999), "4999");
    assert_eq!(decimal_string(1234567890), "1234567890");
    assert_eq!(decimal_string(usize::MAX), usize::MAX.to_string());
}

#[test]
fn texts_are_compared_by_their_characters() {
    assert!(same_text("", ""));
    assert!(same_text("linux", "linux"));
    assert!(!same_text("linux", "linus"));
    assert!(!same_text("linux", "linu"));
    assert!(!same_text("", "x"));
    assert!(same_text("h\u{e9}llo", "h\u{e9}llo"));
}

#[test]
fn last_character_is_found() {
    assert!(ends_with_char("dir/", '/'));
    assert!(ends_with_char("/", '/'));
    assert!(!ends_with_char("dir/file", '/'));
    assert!(!ends_with_char("", '/'));
}

#[test]
fn status_is_asked_below_the_driver_address() {
    assert_eq!(status_url("http://localhost:2345"), "http://localhost:2345/status");
}

#[test]
fn probe_is_ready_as_soon_as_the_driver_answers() {
    let mut probe = Probe::new();
    assert_eq!(probe, Probe { failures: 0 });
    assert_eq!(probe.record(true), Verdict::Ready);
    assert_eq!(probe.failures, 0);
    let mut later = Probe { failures: 19 };
    assert_eq!(later.record(true), Verdict::Ready);
    assert_eq!(later.failures, 19);
}

#[test]
fn probe_gives_up_after_twenty_failures() {
    assert_eq!(MAX_ATTEMPTS, 20);
    assert_eq!(BACKOFF_MILLIS, 50);
    let mut probe = Probe::new();
    for attempt in 1..=19u32 {
        assert_eq!(probe.record(false), Verdict::Retry { after_millis: 50 });
        assert_eq!(probe.failures, attempt);
    }
    assert_eq!(probe.record(false), Verdict::GiveUp);
    assert_eq!(probe.failures, 20);
}

#[test]
fn probe_that_has_given_up_stays_so() {
    let mut probe = Probe { failures: 20 };
    assert_eq!(probe.record(true), Verdict::GiveUp);
    assert_eq!(probe.record(false), Verdict::GiveUp);
    assert_eq!(probe.failures, 20);
    let mut beyond = Probe { failures: u32::MAX };
    assert_eq!(beyond.record(false), Verdict::GiveUp);
    assert_eq!(beyond.failures, u32::MAX);
}

#[test]
fn probe_recovers_after_some_failures() {
    let mut probe = Probe::new();
    for _ in 0..5 {
        assert_eq!(probe.record(false), Verdict::Retry { after_millis: 50 });
    }
    assert_eq!(probe.record(true), Verdict::Ready);
    assert_eq!(probe.failures, 5);
}

#[test]
fn capabilities_receive_the_fixed_adjustments_in_order() {
    assert_eq!(
        adjustments(),
        vec![
            Adjustment::NoSandbox,
            Adjustment::DisableDevShmUsage,
            Adjustment::Argument("--disable-blink-features=AutomationControlled"),
            Adjustment::Argument("window-size=1920,1080"),
            Adjustment::Argument("user-agent=Mozilla/5.0 (Windows NT 10.0; Win64; x64) AppleWebKit/537.36 (KHTML, like Gecko) Chrome/122.0.6261.111 Safari/537.36"),
            Adjustment::Argument("disable-infobars"),
            Adjustment::ListOption { name: "excludeSwitches", values: vec!["enable-automation"] },
        ]
    );
}

#[test]
fn giving_up_is_the_failure_of_an_unreachable_driver() {
    assert_eq!(Verdict::GiveUp.failure(), Some(Error::DriverUnreachable));
    assert_eq!(Verdict::Ready.failure(), None);
    assert_eq!(Verdict::Retry { after_millis: 50 }.failure(), None);
}
