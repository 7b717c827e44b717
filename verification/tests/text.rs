use dsh_studio::candidate;
use dsh_studio::candidate::CandidateStep;
use dsh_studio::command;
use dsh_studio::json::Json;
use dsh_studio::logging::redact_secrets;
use dsh_studio::paths;
use dsh_studio::paths::Location;
use dsh_studio::text;
use dsh_studio::text::Class;

#[test]
fn white_space_is_what_the_standard_library_says() {
    for number in 0..=0x10ffffu32 {
        if let Some(character) = char::from_u32(number) {
            assert_eq!(
                text::white(character),
                character.is_whitespace(),
                "{number:x}"
            );
        }
    }
}

#[test]
fn small_letters_are_ascii_letters() {
    assert_eq!(text::lower("GitHub ÄÖ 9"), "GitHub ÄÖ 9".to_ascii_lowercase());
}

#[test]
fn searching_and_cutting_agree_with_the_standard_library() {
    let sample = " a,b,,c  ";
    assert_eq!(text::trim(sample, Class::White), sample.trim());
    assert_eq!(text::split(sample, ','), sample.split(',').collect::<Vec<_>>());
    let lines = "one\r\ntwo\n\nthree\r";
    assert_eq!(text::lines(lines), lines.lines().collect::<Vec<_>>());
    assert!(text::contains("haystack", "sta"));
    assert!(!text::contains("haystack", "stb"));
    assert_eq!(text::number_text(0), "0");
    assert_eq!(text::number_text(u64::MAX), u64::MAX.to_string());
    assert!(text::comes_before("pnpm", "private"));
    assert!(!text::comes_before("b", "a"));
}

#[test]
fn documents_are_read_and_written() {
    let mut document = Json::parse(r#"{"b":[1,-2,2.5,"x",null,true],"a":{"c":3}}"#).expect("json");
    assert_eq!(document.whole_within("a", "c"), Some(3));
    assert_eq!(document.names().expect("names"), ["a", "b"]);
    document.insert("aa", Json::Text("new".into()));
    assert_eq!(
        document.print(),
        r#"{"a":{"c":3},"aa":"new","b":[1,-2,2.5,"x",null,true]}"#
    );
    assert!(Json::parse("{").is_err());
    let value = document.to_value();
    assert_eq!(Json::from_value(value).print(), document.print());
}

#[test]
fn credentials_are_never_shown() {
    assert_eq!(
        redact_secrets("Authorization: Bearer abc  token=x password=y ok"),
        "Authorization: Bearer [REDACTED]  token=[REDACTED] password=[REDACTED] ok"
    );
    assert_eq!(redact_secrets("nothing to hide"), "nothing to hide");
}

#[test]
fn the_runtime_lives_below_the_data_directory() {
    let data = paths::app_data_dir(None, Some("/home/person/.local/share".into()));
    let shown = paths::harness_dir(&data).text("/");
    assert!(shown.starts_with("/home/person/.local/share/"));
    assert!(shown.ends_with("/harness"));
    let relocated = paths::app_data_dir(Some("/elsewhere".into()), Some("/home".into()));
    assert!(paths::harness_dir(&relocated)
        .text("/")
        .starts_with("/elsewhere"));
    let home = paths::dsh_home(None, Some("/home/person".into()));
    assert_eq!(
        paths::profile_dir(&home, "web").text("/"),
        "/home/person/.dsh/profiles/web"
    );
    assert!(Location::root("/").parent().is_none());
}

#[test]
fn what_the_shell_contributes_comes_first_on_the_path() {
    assert_eq!(
        command::path_with(
            &Some("/node".into()),
            &Some("/pnpm".into()),
            &vec!["/usr/bin".into(), "/bin".into()],
            false
        ),
        ["/node", "/pnpm", "/usr/bin", "/bin"]
    );
    assert_eq!(
        command::path_with(&None, &None, &vec!["/bin".into()], false),
        ["/bin"]
    );
    assert_eq!(
        command::path_with_node(&Some("/node".into()), &vec!["/bin".into()]),
        ["/node", "/bin"]
    );
}

#[test]
fn never_puts_a_path_a_shell_cannot_read_on_the_child_path() {
    let entries = command::path_with(
        &Some(r"\\?\C:\Users\someone\AppData\Local\nvm\v22.14.0".into()),
        &Some(r"\\?\C:\Users\someone\AppData\Local\dsh-studio\tools\node_modules\.bin".into()),
        &vec![],
        true,
    );
    assert_eq!(
        entries[0],
        r"C:\Users\someone\AppData\Local\nvm\v22.14.0"
    );
    assert_eq!(
        entries[1],
        r"C:\Users\someone\AppData\Local\dsh-studio\tools\node_modules\.bin"
    );
    assert!(
        !entries.iter().any(|entry| entry.starts_with(r"\\?\")),
        "no entry this shell contributed may carry the extended-length prefix"
    );
    assert_eq!(
        command::plain_path(r"\\?\UNC\server\tools", true),
        r"\\server\tools"
    );
    assert_eq!(command::plain_path(r"\\?\C:\x", false), r"\\?\C:\x");
}

#[test]
fn a_silent_package_manager_is_stopped_instead_of_hanging_the_ui() {
    let mut watch = command::Watch::begin(50, 2_000, 0);
    assert_eq!(
        watch.see(command::Sight::Spoke, 40),
        command::Verdict::Wait { until: 90 }
    );
    assert_eq!(
        watch.see(command::Sight::Nothing, 89),
        command::Verdict::Wait { until: 90 }
    );
    assert_eq!(
        watch.see(command::Sight::Nothing, 90),
        command::Verdict::Silent
    );
    let failure =
        command::conclude_package("test package manager", 50, 2_000, command::Ending::Silent)
            .expect_err("silent child must hit its idle deadline");
    assert!(failure.message().contains("produced no output"));
    assert_eq!(
        watch.see(command::Sight::Exited, 5_000),
        command::Verdict::Finished
    );
    let mut noisy = command::Watch::begin(50, 100, 0);
    noisy.see(command::Sight::Spoke, 90);
    assert_eq!(
        noisy.see(command::Sight::Nothing, 100),
        command::Verdict::Overdue
    );
}

#[test]
fn a_selected_release_is_assembled_in_bounded_steps() {
    let manifest = candidate::selected_manifest(
        r#"{"dependencies":{"@deepseek-ai/dsh":"0.1.2-rc.1","@deepseek-ai/dsh-base":"0.1.2-rc.1","pnpm":"11.7.0"}}"#,
        "0.1.5-rc.2",
    )
    .expect("manifest");
    assert_eq!(
        manifest
            .text_within("dependencies", "@deepseek-ai/dsh-base")
            .as_deref(),
        Some("0.1.5-rc.2")
    );
    assert_eq!(
        manifest.text_within("dependencies", "pnpm").as_deref(),
        Some("11.7.0")
    );
    let mut step = candidate::begin("0.1.5-rc.2");
    let mut count = 0;
    while step != CandidateStep::Done && step != CandidateStep::GaveUp {
        step = candidate::next(step, true);
        count += 1;
        assert!(count < 40);
    }
    assert_eq!(step, CandidateStep::GaveUp);
    let mut quick = candidate::begin("0.1.5-rc.2");
    while quick != CandidateStep::Done && quick != CandidateStep::GaveUp {
        quick = candidate::next(quick, false);
    }
    assert_eq!(quick, CandidateStep::Done);
}

#[test]
fn peers_are_added_once() {
    let peers = candidate::read_peers(
        &br#"{"peerDependencies":{"@deepseek-ai/dsh-base":"*","react":"*"}}"#.to_vec(),
    )
    .expect("peers");
    assert!(candidate::read_peers(&b"{\"name\":\"\xff\"}".to_vec())
        .expect_err("not a text")
        .message()
        .starts_with("invalid Harness peer manifest: "));
    assert_eq!(peers, ["@deepseek-ai/dsh-base"]);
    let manifest = Json::parse(r#"{"dependencies":{"pnpm":"11.7.0"}}"#).expect("json");
    let (grown, changed) = candidate::add_peers(&manifest, &peers, "0.1.5-rc.2");
    assert!(changed);
    let (settled, again) = candidate::add_peers(&grown, &peers, "0.1.5-rc.2");
    assert!(!again);
    assert_eq!(settled.print(), grown.print());
}

#[test]
fn bytes_are_read_as_the_text_they_spell() {
    let spelled = r#"{"name":"caf\u00e9","tags":["a",1,-2,null]}"#;
    let from_text = Json::parse(spelled).expect("a document");
    let from_bytes = Json::parse_bytes(&spelled.as_bytes().to_vec()).expect("a document");
    assert_eq!(from_text.print(), from_bytes.print());
    assert!(Json::parse_bytes(&vec![0x22, 0xff, 0x22]).is_err());
}

#[test]
fn every_command_of_an_assembly_has_a_label() {
    assert_eq!(
        candidate::command_label(CandidateStep::RunLocked),
        Some("npm ci")
    );
    assert_eq!(
        candidate::command_label(CandidateStep::InstallPeers { round: 2 }),
        Some("npm install Harness peers")
    );
    assert_eq!(candidate::command_label(CandidateStep::WriteMarker), None);
}
