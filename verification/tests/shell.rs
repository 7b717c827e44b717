use dsh_studio::shell;
use dsh_studio::shell::{Found, Request, ShellServer};
use dsh_studio::window;
use dsh_studio::window::{label, vacancy, Monitor, Placement, Tracker, CEILING, MAIN_LABEL};

fn open(labels: &[&str]) -> Vec<String> {
    labels.iter().map(|label| (*label).to_string()).collect()
}

#[test]
fn no_numbered_window_can_be_called_the_main_one() {
    assert!((2..=CEILING).all(|ordinal| label(ordinal) != MAIN_LABEL));
    assert_eq!(vacancy(&open(&[MAIN_LABEL])), Some(2));
}

#[test]
fn a_new_window_takes_the_lowest_free_number() {
    assert_eq!(vacancy(&open(&[MAIN_LABEL, "work-2"])), Some(3));
    assert_eq!(vacancy(&open(&[MAIN_LABEL, "work-2", "work-3"])), Some(4));
    // Window three was closed; the next one is three again, not five.
    assert_eq!(vacancy(&open(&[MAIN_LABEL, "work-2", "work-4"])), Some(3));
}

#[test]
fn the_ceiling_is_a_ceiling() {
    let mut labels = vec![MAIN_LABEL.to_string()];
    labels.extend((2..=CEILING).map(label));
    let full: Vec<String> = labels;

    assert_eq!(full.len(), CEILING);
    assert_eq!(vacancy(&full), None);
    assert_eq!(
        window::next_window(&full).unwrap_err().message(),
        "12 windows are open already, which is as many as this app will run at once"
    );
}

#[test]
fn windows_say_which_one_they_are() {
    assert_eq!(window::title(3), "DSH Studio — 3");
    assert_eq!(
        window::announce(&None, true),
        "window.__DSH_MATERIAL__ = null;window.__DSH_STANDBY__ = true;"
    );
    assert_eq!(
        window::announce(&Some("\"mica\"".into()), false),
        "window.__DSH_MATERIAL__ = \"mica\";window.__DSH_STANDBY__ = false;"
    );
    assert_eq!(
        window::front(&open(&["work-2", MAIN_LABEL])).as_deref(),
        Some(MAIN_LABEL)
    );
    assert_eq!(window::front(&open(&["work-2"])).as_deref(), Some("work-2"));
    assert_eq!(window::front(&Vec::new()), None);
}

fn placement(x: i32, y: i32) -> Placement {
    Placement {
        x,
        y,
        width: 1000,
        height: 700,
        maximized: false,
    }
}

fn monitors() -> Option<Vec<Monitor>> {
    Some(vec![
        Monitor {
            x: 0,
            y: 0,
            width: 1920,
            height: 1080,
        },
        Monitor {
            x: 1920,
            y: 0,
            width: u32::MAX,
            height: 1080,
        },
    ])
}

#[test]
fn a_window_is_restored_where_it_can_be_dragged() {
    assert!(window::on_screen(&placement(0, 0), &monitors()));
    assert!(window::on_screen(&placement(3000, 900), &monitors()));
    assert!(!window::on_screen(&placement(-501, 0), &monitors()));
    assert!(window::on_screen(&placement(-500, 0), &monitors()));
    assert!(!window::on_screen(&placement(0, -19), &monitors()));
    assert!(!window::on_screen(&placement(0, 0), &None));
    assert!(!window::on_screen(
        &placement(i32::MAX, i32::MAX),
        &monitors()
    ));
    let back = window::restore(&Some(placement(10, 20)), &monitors());
    assert_eq!(back.position, Some((10, 20)));
    assert_eq!(back.size, Some((1000, 700)));
    let gone = window::restore(
        &Some(Placement {
            maximized: true,
            ..placement(10, -4000)
        }),
        &monitors(),
    );
    assert_eq!(gone.position, None);
    assert!(gone.maximize);
    assert!(!window::restore(&None, &monitors()).maximize);
}

#[test]
fn a_second_window_is_put_beside_the_first() {
    assert_eq!(
        window::cascade((10, 20), (800, 600), 30, &monitors()),
        Some((40, 50))
    );
    assert_eq!(
        window::cascade((10, 1070), (800, 600), 30, &monitors()),
        None
    );
    assert_eq!(
        window::cascade((i32::MAX, 0), (800, 600), 30, &monitors()),
        None
    );
}

#[test]
fn one_write_for_one_gesture() {
    let mut tracker = Tracker::new(placement(1, 2));
    assert!(!tracker.moved(true, false, Some(placement(9, 9))));
    assert!(tracker.moved(false, false, Some(placement(3, 4))));
    assert!(!tracker.moved(false, true, Some(placement(0, 0))));
    let written = tracker.settle();
    assert_eq!(
        written,
        Placement {
            maximized: true,
            ..placement(3, 4)
        }
    );
    assert!(tracker.moved(false, false, None));
    assert!(!tracker.settle().maximized);
}

#[test]
fn a_root_without_an_entry_point_is_refused() {
    let err = shell::check_root(false, "root/index.html").expect_err("no index.html must fail");
    assert!(err.message().contains("no entry point"));
    assert!(shell::check_root(true, "root/index.html").is_ok());
}

fn request(text: &str) -> Request {
    shell::read_request(&text.as_bytes().to_vec())
}

#[test]
fn index_and_a_nested_asset_round_trip() {
    let (mut server, origin) = ShellServer::start(8080);
    assert!(origin.0.starts_with("http://127.0.0.1:"));
    assert_eq!(origin.0, "http://127.0.0.1:8080");

    match request("GET / HTTP/1.1\r\nhost: 127.0.0.1\r\n\r\n") {
        Request::File(path) => assert_eq!(path, "index.html"),
        _ => panic!("the entry point"),
    }
    let index = shell::answer(
        &Found {
            inside: true,
            length: Some(18),
            extension: Some("html".into()),
        },
        1000,
    );
    assert!(index.head.contains("200 OK"));
    assert!(index.head.contains("content-length: 18\r\n"));
    assert!(index.head.contains("content-type: text/html; charset=utf-8\r\n"));
    assert!(index.head.ends_with("connection: close\r\n\r\n"));

    match request("GET /assets/app.js?v=1#top HTTP/1.1\r\n\r\n") {
        Request::File(path) => assert_eq!(path, "assets/app.js"),
        _ => panic!("an asset"),
    }

    // Escaping the root is refused.
    let forbidden = shell::answer(
        &Found {
            inside: false,
            length: Some(1),
            extension: Some("toml".into()),
        },
        1000,
    );
    assert!(forbidden.head.contains("403"));
    assert_eq!(forbidden.body.as_deref(), Some("forbidden"));

    // A missing file 404s.
    let missing = shell::answer(
        &Found {
            inside: true,
            length: None,
            extension: Some("js".into()),
        },
        1000,
    );
    assert_eq!(
        missing.head,
        "HTTP/1.1 404 not found\r\ncontent-type: text/plain\r\ncontent-length: 9\r\nconnection: close\r\n\r\n"
    );
    let large = shell::answer(
        &Found {
            inside: true,
            length: Some(1001),
            extension: None,
        },
        1000,
    );
    assert_eq!(large.status, 413);

    assert!(!server.stopped);
    server.stop();
    assert!(server.stopped);
}

#[test]
fn only_reading_is_answered() {
    assert!(matches!(request("POST / HTTP/1.1\r\n\r\n"), Request::Refused));
    assert!(matches!(request("\r\n\r\n"), Request::Refused));
    assert!(matches!(request("GET\r\n\r\n"), Request::Nothing));
    assert!(matches!(request(""), Request::Nothing));
    assert_eq!(shell::refuse_method().status, 405);
    assert_eq!(shell::content_type_of(&None), "application/octet-stream");
    assert_eq!(shell::content_type_of(&Some("svg".into())), "image/svg+xml");
}

#[test]
fn a_head_ends_at_an_empty_line_or_at_its_limit() {
    let mut head: Vec<u8> = Vec::new();
    let mut read = 0;
    for byte in b"GET / HTTP/1.1\r\n\r\nrest" {
        read += 1;
        if shell::take_byte(&mut head, *byte) {
            break;
        }
    }
    assert_eq!(read, 18);
    let mut endless: Vec<u8> = Vec::new();
    let mut count = 0;
    loop {
        count += 1;
        if shell::take_byte(&mut endless, b'x') {
            break;
        }
    }
    assert_eq!(count, shell::REQUEST_BYTES);
}

#[test]
fn a_place_is_inside_the_bundle_step_by_step() {
    let root = open(&["/", "app", "bundle"]);
    assert!(shell::inside(&root, &root));
    assert!(shell::inside(&root, &open(&["/", "app", "bundle", "index.html"])));
    assert!(!shell::inside(&root, &open(&["/", "app", "bundled", "index.html"])));
    assert!(!shell::inside(&root, &open(&["/", "app"])));
    assert!(!shell::inside(&root, &open(&["/", "etc", "bundle", "index.html"])));
}
