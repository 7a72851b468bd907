use realtime_dsp::audio_core::invoke_from_init;
use realtime_dsp::control::control_utils::ControlTarget;
use realtime_dsp::control::socket_handler::parse_command;
use realtime_dsp::control::web_server::server::{
    dsp_command_is_complete, file_not_found_response, file_response_head, get_full_path, get_mime_type, get_req_type, handle_api_request,
    index_file_path, payload_len, request_path, run_dsp_command, ApiRequest, HttpMethod,
};
use realtime_dsp::dsp::Dsp;
use realtime_dsp::errors::{CmdError, HttpError};

fn req(v: f32) -> ApiRequest<f32> {
    ApiRequest { target: "x".to_string(), value: v }
}

fn rack(list: &str) -> Vec<Dsp<f32>> {
    invoke_from_init(list.to_string(), 1.0f32).unwrap()
}

fn trim_gain(d: &Dsp<f32>) -> ControlTarget<f32> {
    match d {
        Dsp::Trim(t) => t.amp,
        _ => panic!("expected a trim"),
    }
}

#[test]
fn trim_amp_command_sets_every_trim() {
    let mut slots = rack("trim,meter");
    let r = run_dsp_command(req(0.25), 0, "/dsp/1/trim/main/amp/", &mut slots);
    assert_eq!(r, Ok(()));
    assert_eq!(trim_gain(&slots[0]), ControlTarget::amp(0.25));
    assert_eq!(trim_gain(&slots[1]), ControlTarget::amp(0.25));
}

#[test]
fn trim_command_with_other_param_is_refused_and_changes_nothing() {
    let mut slots = rack("trim");
    let before = slots.clone();
    let r = run_dsp_command(req(0.25), 0, "dsp/1/trim/main/gain", &mut slots);
    assert_eq!(r, Err(CmdError {}));
    assert_eq!(slots, before);
}

#[test]
fn eq_band_commands_set_one_band() {
    let mut slots = rack("eq");
    assert_eq!(run_dsp_command(req(1234.9), 1234, "/dsp/1/eq/band3/freq/", &mut slots), Ok(()));
    assert_eq!(run_dsp_command(req(2.0), 2, "/dsp/1/eq/band6/amp/", &mut slots), Ok(()));
    assert_eq!(run_dsp_command(req(0.5), 0, "/dsp/1/eq/band1/q/", &mut slots), Ok(()));
    assert_eq!(run_dsp_command(req(9.0), 9, "/dsp/1/eq/band2/model/", &mut slots), Ok(()));
    for s in &slots {
        match s {
            Dsp::EQ(e) => {
                assert_eq!(e.band3.freq, ControlTarget::freq(1234));
                assert_eq!(e.band6.amp, ControlTarget::amp(2.0));
                assert_eq!(e.band1.q, ControlTarget::q(0.5));
                assert_eq!(e.band2.freq, ControlTarget::freq(340));
                assert_eq!(e.band4.freq, ControlTarget::freq(1500));
            },
            _ => panic!("expected an equaliser"),
        }
    }
}

#[test]
fn unknown_commands_are_refused() {
    let mut slots = rack("eq,trim");
    let before = slots.clone();
    assert_eq!(run_dsp_command(req(1.0), 1, "/dsp/1/eq/band7/freq/", &mut slots), Err(CmdError {}));
    assert_eq!(run_dsp_command(req(1.0), 1, "/dsp/1/eq/band1/gain/", &mut slots), Err(CmdError {}));
    assert_eq!(run_dsp_command(req(1.0), 1, "/dsp/1/dyn/x/y/", &mut slots), Err(CmdError {}));
    assert_eq!(run_dsp_command(req(1.0), 1, "/dsp/1/comp/x/y/", &mut slots), Err(CmdError {}));
    assert_eq!(run_dsp_command(req(1.0), 1, "/mix/1/eq/band1/freq/", &mut slots), Err(CmdError {}));
    assert_eq!(slots, before);
}

#[test]
fn ping_and_state_succeed_without_change() {
    let mut slots = rack("trim");
    let before = slots.clone();
    assert_eq!(run_dsp_command(req(1.0), 1, "/ping/", &mut slots), Ok(()));
    assert_eq!(run_dsp_command(req(1.0), 1, " state/ch1rms ", &mut slots), Ok(()));
    assert_eq!(slots, before);
}

#[test]
fn command_for_an_absent_kind_succeeds_without_change() {
    let mut slots = rack("meter");
    let before = slots.clone();
    assert_eq!(run_dsp_command(req(1.0), 1, "/dsp/1/eq/bandX/freq/", &mut slots), Ok(()));
    assert_eq!(run_dsp_command(req(1.0), 1, "/dsp/1/trim", &mut slots), Ok(()));
    assert_eq!(slots, before);
}

#[test]
fn incomplete_paths_are_detected() {
    let slots = rack("trim");
    assert!(!dsp_command_is_complete("/dsp/1/", &slots));
    assert!(!dsp_command_is_complete("/dsp/1/trim/main", &slots));
    assert!(dsp_command_is_complete("/dsp/1/trim/main/amp", &slots));
    assert!(dsp_command_is_complete("/dsp/1/eq/band1", &slots));
    assert!(dsp_command_is_complete("/ping", &slots));
    let eq = rack("eq");
    assert!(!dsp_command_is_complete("/dsp/1/eq", &eq));
    assert!(!dsp_command_is_complete("/dsp/1/eq/band1", &eq));
    assert!(dsp_command_is_complete("/dsp/1/eq/other", &eq));
}

#[test]
fn api_request_answers() {
    let mut slots = rack("trim");
    let (resp, err) = handle_api_request("/api/dsp/1/trim/a/amp/", Some(req(3.0)), 3, &mut slots);
    assert_eq!(resp, Some("HTTP/1.1 200 OK\r\nContent-Type: text/plain\r\n\r\nCommand Success"));
    assert_eq!(err, HttpError::UnsupportedReq);
    assert_eq!(trim_gain(&slots[0]), ControlTarget::amp(3.0));
    let (resp, err) = handle_api_request("/api/dsp/1/nope/a/amp/", Some(req(3.0)), 3, &mut slots);
    assert_eq!(resp, Some("HTTP/1.1 404 NOT FOUND\r\nContent-Type: text/plain\r\n\r\n404 Not Found"));
    assert_eq!(err, HttpError::UnsupportedReq);
    let (resp, err) = handle_api_request("/api/ping/", None, 0, &mut slots);
    assert_eq!(resp, None);
    assert_eq!(err, HttpError::UnsupportedReq);
}

#[test]
fn api_prefix_is_removed_repeatedly() {
    let mut slots = rack("trim");
    let (resp, _) = handle_api_request("/api/api/dsp/1/trim/a/amp/", Some(req(0.5)), 0, &mut slots);
    assert_eq!(resp, Some("HTTP/1.1 200 OK\r\nContent-Type: text/plain\r\n\r\nCommand Success"));
    assert_eq!(trim_gain(&slots[1]), ControlTarget::amp(0.5));
}

fn head(lines: &[&str]) -> Vec<String> {
    lines.iter().map(|l| l.to_string()).collect()
}

#[test]
fn request_method_and_path() {
    let h = head(&["POST /api/dsp/1/eq/band6/freq/ HTTP/1.1", "Host: x"]);
    assert_eq!(get_req_type(&h), Ok(HttpMethod::POST));
    assert_eq!(request_path(&h), "/api/dsp/1/eq/band6/freq/");
    let g = head(&["GET / HTTP/1.1"]);
    assert_eq!(get_req_type(&g), Ok(HttpMethod::GET));
    assert_eq!(request_path(&g), "/");
    let p = head(&["PUT /x HTTP/1.1"]);
    assert_eq!(get_req_type(&p), Err(HttpError::InvalidMethod));
    let lower = head(&["get /x HTTP/1.1"]);
    assert_eq!(get_req_type(&lower), Err(HttpError::InvalidMethod));
}

#[test]
fn content_length_from_the_head() {
    assert_eq!(payload_len(&head(&["POST / HTTP/1.1", "Content-Length: 27"])), 27);
    assert_eq!(payload_len(&head(&["POST / HTTP/1.1", "Host: a", "Content-Length:5", "Content-Length: 9"])), 5);
    assert_eq!(payload_len(&head(&["POST / HTTP/1.1", "Content-Length: abc", "Content-Length: 9"])), 0);
    assert_eq!(payload_len(&head(&["POST / HTTP/1.1", "content-length: 8"])), 0);
    assert_eq!(payload_len(&head(&["POST / HTTP/1.1", "Content-Length: 4:2"])), 4);
    assert_eq!(payload_len(&head(&["POST / HTTP/1.1", "Content-Length: +12"])), 12);
    assert_eq!(payload_len(&head(&["POST / HTTP/1.1", "Content-Length: -1"])), 0);
    assert_eq!(payload_len(&head(&["GET / HTTP/1.1"])), 0);
}

#[test]
fn mime_types_by_extension() {
    assert_eq!(get_mime_type("src/control/web_server/html/index.html"), "text/html; charset=utf-8");
    assert_eq!(get_mime_type("a/style.css"), "text/css; charset=utf-8");
    assert_eq!(get_mime_type("a/app.min.js"), "application/javascript; charset=utf-8");
    assert_eq!(get_mime_type("a/app.js/"), "application/javascript; charset=utf-8");
    assert_eq!(get_mime_type("a/.html"), "application/octet-stream");
    assert_eq!(get_mime_type("a/image.png"), "application/octet-stream");
    assert_eq!(get_mime_type("a/README"), "application/octet-stream");
    assert_eq!(get_mime_type("a/x.html/.."), "application/octet-stream");
    assert_eq!(get_mime_type("a/x.css/."), "text/css; charset=utf-8");
    assert_eq!(get_mime_type(""), "application/octet-stream");
}

#[test]
fn file_paths_under_the_static_directory() {
    assert_eq!(get_full_path("/index.html"), "src/control/web_server/html/index.html");
    assert_eq!(get_full_path("///css/a.css"), "src/control/web_server/html/css/a.css");
    assert_eq!(get_full_path("/"), "src/control/web_server/html/");
    assert_eq!(index_file_path("src/control/web_server/html/"), "src/control/web_server/html/index.html");
    assert_eq!(index_file_path("src/control/web_server/html/sub"), "src/control/web_server/html/sub/index.html");
    assert_eq!(index_file_path(""), "index.html");
}

#[test]
fn socket_commands_change_the_named_kind() {
    let mut slots = rack("lpf,hpf,band,trim");
    let parse = |s: &str| s.parse::<f32>().unwrap();
    assert!(parse_command("lpf:freq:1000", &mut slots, parse).is_empty());
    assert!(parse_command(" hpf : bypass : true ", &mut slots, parse).is_empty());
    assert!(parse_command("band:q:2.5", &mut slots, parse).is_empty());
    assert!(parse_command("band:amp:0.5", &mut slots, parse).is_empty());
    assert!(parse_command("trim:amp:0.75", &mut slots, parse).is_empty());
    assert!(parse_command("band:freq:-40", &mut slots, parse).is_empty());
    for s in &slots {
        match s {
            Dsp::LPF(x) => assert_eq!((x.freq, x.bypass), (ControlTarget::freq(1000), ControlTarget::bypass(false))),
            Dsp::HPF(x) => assert_eq!((x.freq, x.bypass), (ControlTarget::freq(20), ControlTarget::bypass(true))),
            Dsp::BF(x) => {
                assert_eq!(x.q, ControlTarget::q(2.5));
                assert_eq!(x.amp, ControlTarget::amp(0.5));
                assert_eq!(x.freq, ControlTarget::freq(-40));
            },
            Dsp::Trim(x) => assert_eq!(x.amp, ControlTarget::amp(0.75)),
            _ => panic!("unexpected slot"),
        }
    }
}

#[test]
fn socket_unknown_parameter_gives_one_notice_per_slot() {
    let mut slots = rack("lpf,trim");
    let before = slots.clone();
    let parse = |s: &str| s.parse::<f32>().unwrap();
    let notices = parse_command("lpf:gain:3", &mut slots, parse);
    assert_eq!(notices, vec!["Unknown parameters for lpf filter !!"; 2]);
    let notices = parse_command("trim:q:3", &mut slots, parse);
    assert_eq!(notices, vec!["Unknown parameters for trim !!"; 2]);
    assert_eq!(slots, before);
}

#[test]
fn socket_unknown_target_or_absent_kind_changes_nothing() {
    let mut slots = rack("trim");
    let before = slots.clone();
    let parse = |s: &str| s.parse::<f32>().unwrap();
    assert!(parse_command("eq:freq:3", &mut slots, parse).is_empty());
    assert!(parse_command("lpf:freq:not-a-number", &mut slots, parse).is_empty());
    assert!(parse_command("band:gain:1", &mut slots, parse).len() == 0);
    assert_eq!(slots, before);
}

#[test]
fn channel_part_of_the_path_is_ignored() {
    let mut a = rack("trim,eq");
    let mut b = rack("trim,eq");
    assert_eq!(run_dsp_command(req(0.3), 0, "/dsp/1/trim/x/amp/", &mut a), Ok(()));
    assert_eq!(run_dsp_command(req(0.3), 0, "/dsp/anything/trim/x/amp/", &mut b), Ok(()));
    assert_eq!(a, b);
}

#[test]
fn commands_keep_the_rack_shape() {
    let mut slots = rack("lpf,trim,eq,meter");
    let kinds_before: Vec<std::mem::Discriminant<Dsp<f32>>> = slots.iter().map(std::mem::discriminant).collect();
    let _ = run_dsp_command(req(0.3), 0, "/dsp/1/trim/x/amp/", &mut slots);
    let _ = run_dsp_command(req(700.0), 700, "/dsp/1/eq/band2/freq/", &mut slots);
    let _ = parse_command("lpf:freq:900", &mut slots, |v: &str| v.parse::<f32>().unwrap());
    let kinds_after: Vec<std::mem::Discriminant<Dsp<f32>>> = slots.iter().map(std::mem::discriminant).collect();
    assert_eq!(kinds_before, kinds_after);
    for (j, s) in slots.iter().enumerate() {
        let ch = match s {
            Dsp::LPF(x) => x.index,
            Dsp::HPF(x) => x.index,
            Dsp::BF(x) => x.index,
            Dsp::Trim(x) => x.index,
            Dsp::Meter(x) => x.index,
            Dsp::EQ(x) => x.index,
        };
        assert_eq!(ch as usize, j % 2);
    }
}

#[test]
fn file_answer_heads() {
    assert_eq!(
        file_response_head("text/css; charset=utf-8", 1234),
        "HTTP/1.1 200 OK\r\nContent-Type: text/css; charset=utf-8\r\nContent-Length: 1234\r\n\r\n"
    );
    assert_eq!(
        file_response_head("application/octet-stream", 0),
        "HTTP/1.1 200 OK\r\nContent-Type: application/octet-stream\r\nContent-Length: 0\r\n\r\n"
    );
    assert_eq!(file_not_found_response(), "HTTP/1.1 404 NOT FOUND\r\nContent-Type: text/plain\r\n\r\n404 Not Found");
}
