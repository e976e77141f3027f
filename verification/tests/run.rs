use ifconfig::cli::Cli;
use ifconfig::run::{run_once, watch_header, Output};
use ifconfig::stub::get_stub_adapters;

fn cli() -> Cli {
    Cli {
        interface: None,
        all: false,
        json: false,
        stats: false,
        metrics: false,
        dns: false,
        dhcp: false,
        no_color: false,
        brief: false,
        verbose: false,
        watch: None,
        summary: false,
        command: None,
    }
}

#[test]
fn run_once_json_lists_positions() {
    let s = get_stub_adapters();
    let mut c = cli();
    c.json = true;
    c.all = true;
    match run_once(&s, &c, "1.0.11", &None, "t") {
        Output::Json(p) => assert_eq!(p, vec![0, 1, 2]),
        Output::Text(..) => panic!("expected JSON"),
    }
}

#[test]
fn run_once_text_shows_adapters() {
    let s = get_stub_adapters();
    let mut c = cli();
    c.all = true;
    match run_once(&s, &c, "1.0.11", &Some("h".to_string()), "t") {
        Output::Text(err, out) => {
            assert!(err.is_empty());
            let n_lo = 3 + 2;
            let first: String = out[n_lo].iter().map(|x| x.text.as_str()).collect();
            assert_eq!(first, "🔁 lo: <UP,LOOPBACK,RUNNING,NOARP,MULTICAST> UP mtu 65536 metric 75");
        }
        Output::Json(_) => panic!("expected text"),
    }
}

#[test]
fn watch_header_line() {
    let h = watch_header(2, "14:32:07");
    assert_eq!(h.len(), 2);
    let t: String = h[0].iter().map(|x| x.text.as_str()).collect();
    assert_eq!(t, "🔄 Refreshing every 2s — Last update: 14:32:07");
    assert!(h[1].is_empty());
}
